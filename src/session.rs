use vstd::prelude::*;

use crate::org_map::{opt_str, opt_string};
use crate::text::same_text;

verus! {

/// One known login: a site and an optional org label. Holds no secret.
#[derive(Debug, Clone)]
pub struct SessionEntry {
    pub site: String,
    pub org: Option<String>,
}

/// The (site, org) pair that identifies a session.
pub type SessionKey = (Seq<char>, Option<Seq<char>>);

/// The pair that identifies an entry.
pub open spec fn key_of(e: SessionEntry) -> SessionKey {
    (e.site@, opt_string(e.org))
}

/// The pairs of a registry, in order.
pub open spec fn keys_of(s: Seq<SessionEntry>) -> Seq<SessionKey> {
    s.map_values(|e: SessionEntry| key_of(e))
}

/// A list with every occurrence of `p` taken out, the rest in order.
pub open spec fn without(l: Seq<SessionKey>, p: SessionKey) -> Seq<SessionKey>
    decreases l.len(),
{
    if l.len() == 0 {
        l
    } else if l.last() == p {
        without(l.drop_last(), p)
    } else {
        without(l.drop_last(), p).push(l.last())
    }
}

/// The registry after saving `p`: earlier entries for it are dropped and it goes last.
pub open spec fn with_session(l: Seq<SessionKey>, p: SessionKey) -> Seq<SessionKey> {
    without(l, p).push(p)
}

/// Whether an entry is the session (`site`, `org`).
fn is_session(e: &SessionEntry, site: &str, org: Option<&str>) -> (r: bool)
    ensures
        r == (key_of(*e) == (site@, opt_str(org))),
{
    if !same_text(e.site.as_str(), site) {
        return false;
    }
    match (&e.org, org) {
        (Some(a), Some(b)) => same_text(a.as_str(), b),
        (None, None) => true,
        _ => false,
    }
}

fn copy_entry(e: &SessionEntry) -> (r: SessionEntry)
    ensures
        key_of(r) == key_of(*e),
{
    let org = match &e.org {
        Some(o) => Some(o.clone()),
        None => None,
    };
    SessionEntry { site: e.site.clone(), org }
}

/// The entries other than (`site`, `org`), in order.
fn retain_others(sessions: &Vec<SessionEntry>, site: &str, org: Option<&str>) -> (r: Vec<
    SessionEntry,
>)
    ensures
        keys_of(r@) == without(keys_of(sessions@), (site@, opt_str(org))),
{
    let ghost p = (site@, opt_str(org));
    let mut out: Vec<SessionEntry> = Vec::new();
    let mut i: usize = 0;
    while i < sessions.len()
        invariant
            i <= sessions@.len(),
            p == (site@, opt_str(org)),
            keys_of(out@) == without(keys_of(sessions@.subrange(0, i as int)), p),
        decreases sessions@.len() - i,
    {
        let ghost prefix = sessions@.subrange(0, i as int + 1);
        proof {
            assert(keys_of(prefix).drop_last() =~= keys_of(sessions@.subrange(0, i as int)));
            assert(keys_of(prefix).last() == key_of(sessions@[i as int]));
        }
        if !is_session(&sessions[i], site, org) {
            let c = copy_entry(&sessions[i]);
            out.push(c);
            assert(keys_of(out@) =~= without(keys_of(sessions@.subrange(0, i as int)), p).push(
                key_of(sessions@[i as int]),
            ));
            assert(keys_of(out@) == without(keys_of(prefix), p));
        } else {
            assert(keys_of(out@) == without(keys_of(prefix), p));
        }
        i = i + 1;
    }
    assert(sessions@.subrange(0, sessions@.len() as int) == sessions@);
    out
}

/// The registry after recording a login to (`site`, `org`): any earlier entry for
/// the pair is dropped and the pair is appended, so no pair appears twice.
pub fn save_session(sessions: &Vec<SessionEntry>, site: &str, org: Option<&str>) -> (r: Vec<
    SessionEntry,
>)
    ensures
        keys_of(r@) == with_session(keys_of(sessions@), (site@, opt_str(org))),
{
    let mut out = retain_others(sessions, site, org);
    let org_owned = match org {
        Some(o) => Some(String::from_str(o)),
        None => None,
    };
    out.push(SessionEntry { site: String::from_str(site), org: org_owned });
    assert(keys_of(out@) =~= with_session(keys_of(sessions@), (site@, opt_str(org))));
    out
}

/// The registry after forgetting (`site`, `org`); a pair that is not there changes nothing.
pub fn remove_session(sessions: &Vec<SessionEntry>, site: &str, org: Option<&str>) -> (r: Vec<
    SessionEntry,
>)
    ensures
        keys_of(r@) == without(keys_of(sessions@), (site@, opt_str(org))),
{
    retain_others(sessions, site, org)
}

proof fn lemma_without_twice(l: Seq<SessionKey>, p: SessionKey)
    ensures
        without(without(l, p), p) == without(l, p),
        !without(l, p).contains(p),
    decreases l.len(),
{
    if l.len() > 0 {
        lemma_without_twice(l.drop_last(), p);
        let w = without(l.drop_last(), p);
        if l.last() != p {
            assert(w.push(l.last()).drop_last() == w);
            assert(!w.push(l.last()).contains(p)) by {
                if w.push(l.last()).contains(p) {
                    let i = choose|i: int| 0 <= i < w.push(l.last()).len() && w.push(l.last())[i] == p;
                    if i < w.len() {
                        assert(w[i] == p);
                    }
                }
            }
        }
    }
}

/// Saving the same session twice leaves the registry as saving it once does.
pub proof fn lemma_save_session_idempotent(l: Seq<SessionKey>, p: SessionKey)
    ensures
        with_session(with_session(l, p), p) == with_session(l, p),
        with_session(with_session(l, p), p).len() == with_session(l, p).len(),
{
    let once = with_session(l, p);
    assert(once.drop_last() == without(l, p));
    lemma_without_twice(l, p);
}

/// Removing a session that is not in the registry leaves the registry unchanged.
pub proof fn lemma_remove_absent_session(l: Seq<SessionKey>, p: SessionKey)
    requires
        !l.contains(p),
    ensures
        without(l, p) == l,
    decreases l.len(),
{
    if l.len() > 0 {
        assert(!l.drop_last().contains(p)) by {
            if l.drop_last().contains(p) {
                let i = choose|i: int| 0 <= i < l.drop_last().len() && l.drop_last()[i] == p;
                assert(l[i] == p);
            }
        }
        lemma_remove_absent_session(l.drop_last(), p);
        assert(l.last() != p) by {
            assert(l[l.len() - 1] == l.last());
        }
        assert(l.drop_last().push(l.last()) == l);
    }
}

} // verus!
