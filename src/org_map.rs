use vstd::prelude::*;

use crate::text::same_text;
use crate::types::TokenSet;

verus! {

/// Map key under which the org-less (default) session is stored.
pub const DEFAULT_ORG_KEY: &'static str = "__default__";

/// The text of `DEFAULT_ORG_KEY`.
pub open spec fn default_key() -> Seq<char> {
    seq!['_', '_', 'd', 'e', 'f', 'a', 'u', 'l', 't', '_', '_']
}

/// The text of an optional `&str`.
pub open spec fn opt_str(o: Option<&str>) -> Option<Seq<char>> {
    match o {
        Some(s) => Some(s@),
        None => None,
    }
}

/// The text of an optional `String`.
pub open spec fn opt_string(o: Option<String>) -> Option<Seq<char>> {
    match o {
        Some(s) => Some(s@),
        None => None,
    }
}

/// The map key for an org label: the label itself, or the default key when
/// there is no label or it is empty.
pub open spec fn org_key(org: Option<Seq<char>>) -> Seq<char> {
    match org {
        Some(o) => if o.len() > 0 {
            o
        } else {
            default_key()
        },
        None => default_key(),
    }
}

/// Chooses the map key for an org label.
pub fn org_map_key<'a>(org: Option<&'a str>) -> (r: &'a str)
    ensures
        r@ == org_key(opt_str(org)),
{
    proof {
        reveal_strlit("__default__");
    }
    match org {
        Some(o) => {
            if o.unicode_len() > 0 {
                o
            } else {
                DEFAULT_ORG_KEY
            }
        },
        None => DEFAULT_ORG_KEY,
    }
}

/// No two entries share a key.
pub open spec fn keys_distinct<V>(e: Seq<(String, V)>) -> bool {
    forall|i: int, j: int|
        0 <= i < e.len() && 0 <= j < e.len() && i != j ==> #[trigger] e[i].0@ != #[trigger] e[j].0@
}

/// The map that a list of entries denotes; a later entry wins over an earlier one.
pub open spec fn map_of<V>(e: Seq<(String, V)>) -> Map<Seq<char>, V>
    decreases e.len(),
{
    if e.len() == 0 {
        Map::empty()
    } else {
        map_of(e.drop_last()).insert(e.last().0@, e.last().1)
    }
}

proof fn lemma_map_of_dom<V>(e: Seq<(String, V)>, k: Seq<char>)
    ensures
        map_of(e).dom().contains(k) <==> exists|i: int| 0 <= i < e.len() && #[trigger] e[i].0@ == k,
    decreases e.len(),
{
    if e.len() > 0 {
        lemma_map_of_dom(e.drop_last(), k);
        if map_of(e).dom().contains(k) && k != e.last().0@ {
            let i = choose|i: int| 0 <= i < e.drop_last().len() && #[trigger] e.drop_last()[i].0@ == k;
            assert(e[i].0@ == k);
        }
        if exists|i: int| 0 <= i < e.len() && #[trigger] e[i].0@ == k {
            let i = choose|i: int| 0 <= i < e.len() && #[trigger] e[i].0@ == k;
            if i < e.len() - 1 {
                assert(e.drop_last()[i].0@ == k);
            }
        }
    }
}

proof fn lemma_map_of_index<V>(e: Seq<(String, V)>, i: int)
    requires
        keys_distinct(e),
        0 <= i < e.len(),
    ensures
        map_of(e).dom().contains(e[i].0@),
        map_of(e)[e[i].0@] == e[i].1,
    decreases e.len(),
{
    if i < e.len() - 1 {
        let d = e.drop_last();
        assert(keys_distinct(d)) by {
            assert forall|a: int, b: int|
                0 <= a < d.len() && 0 <= b < d.len() && a != b implies #[trigger] d[a].0@
                != #[trigger] d[b].0@ by {
                assert(d[a] == e[a] && d[b] == e[b]);
            }
        }
        lemma_map_of_index(d, i);
        assert(d[i] == e[i]);
        assert(e[i].0@ != e[e.len() - 1].0@);
    }
}

proof fn lemma_distinct_prefix<V>(e: Seq<(String, V)>)
    requires
        keys_distinct(e),
        e.len() > 0,
    ensures
        keys_distinct(e.drop_last()),
        !map_of(e.drop_last()).dom().contains(e.last().0@),
{
    let d = e.drop_last();
    assert forall|a: int, b: int|
        0 <= a < d.len() && 0 <= b < d.len() && a != b implies #[trigger] d[a].0@
        != #[trigger] d[b].0@ by {
        assert(d[a] == e[a] && d[b] == e[b]);
    }
    lemma_map_of_dom(d, e.last().0@);
    if map_of(d).dom().contains(e.last().0@) {
        let i = choose|i: int| 0 <= i < d.len() && #[trigger] d[i].0@ == e.last().0@;
        assert(d[i] == e[i]);
        assert(e[i].0@ != e[e.len() - 1].0@);
    }
}

proof fn lemma_map_of_update<V>(e: Seq<(String, V)>, i: int, v: (String, V))
    requires
        keys_distinct(e),
        0 <= i < e.len(),
        e[i].0@ == v.0@,
    ensures
        keys_distinct(e.update(i, v)),
        map_of(e.update(i, v)) == map_of(e).insert(v.0@, v.1),
    decreases e.len(),
{
    let u = e.update(i, v);
    assert forall|a: int, b: int|
        0 <= a < u.len() && 0 <= b < u.len() && a != b implies #[trigger] u[a].0@
        != #[trigger] u[b].0@ by {
        assert(u[a].0@ == e[a].0@ && u[b].0@ == e[b].0@);
    }
    lemma_distinct_prefix(e);
    if i == e.len() - 1 {
        assert(u.drop_last() == e.drop_last());
        assert(map_of(u) =~= map_of(e).insert(v.0@, v.1));
    } else {
        let d = e.drop_last();
        assert(u.drop_last() == d.update(i, v));
        assert(d[i] == e[i]);
        lemma_map_of_update(d, i, v);
        assert(u.last() == e.last());
        assert(e[i].0@ != e[e.len() - 1].0@);
        assert(map_of(u) =~= map_of(e).insert(v.0@, v.1));
    }
}

proof fn lemma_map_of_remove<V>(e: Seq<(String, V)>, i: int)
    requires
        keys_distinct(e),
        0 <= i < e.len(),
    ensures
        keys_distinct(e.remove(i)),
        map_of(e.remove(i)) == map_of(e).remove(e[i].0@),
    decreases e.len(),
{
    let r = e.remove(i);
    assert forall|a: int, b: int|
        0 <= a < r.len() && 0 <= b < r.len() && a != b implies #[trigger] r[a].0@
        != #[trigger] r[b].0@ by {
        let a2 = if a < i { a } else { a + 1 };
        let b2 = if b < i { b } else { b + 1 };
        assert(r[a] == e[a2] && r[b] == e[b2]);
    }
    lemma_distinct_prefix(e);
    if i == e.len() - 1 {
        assert(r == e.drop_last());
        assert(map_of(r) =~= map_of(e).remove(e[i].0@));
    } else {
        let d = e.drop_last();
        assert(r.drop_last() == d.remove(i));
        assert(d[i] == e[i]);
        lemma_map_of_remove(d, i);
        assert(r.last() == e.last());
        assert(e[i].0@ != e[e.len() - 1].0@);
        assert(map_of(r) =~= map_of(e).remove(e[i].0@));
    }
}

/// A map keyed by text, held as a list of entries with distinct keys.
#[derive(Debug)]
pub struct TextMap<V> {
    entries: Vec<(String, V)>,
}

/// The tokens of every org of one site: the unit that is stored as one record.
pub type OrgTokenMap = TextMap<TokenSet>;

impl<V> View for TextMap<V> {
    type V = Map<Seq<char>, V>;

    closed spec fn view(&self) -> Map<Seq<char>, V> {
        map_of(self.entries@)
    }
}

impl<V> TextMap<V> {
    /// The entries hold no key twice.
    #[verifier::type_invariant]
    spec fn inv(self) -> bool {
        keys_distinct(self.entries@)
    }

    /// A map with no entry.
    pub fn new() -> (r: TextMap<V>)
        ensures
            r@ == Map::<Seq<char>, V>::empty(),
    {
        TextMap { entries: Vec::new() }
    }

    /// Position of the entry with key `key`, if there is one.
    fn find(&self, key: &str) -> (r: Option<usize>)
        ensures
            keys_distinct(self.entries@),
            match r {
                Some(i) => i < self.entries@.len() && self.entries@[i as int].0@ == key@,
                None => !self@.contains_key(key@),
            },
    {
        proof {
            use_type_invariant(self);
        }
        let mut i: usize = 0;
        while i < self.entries.len()
            invariant
                i <= self.entries@.len(),
                keys_distinct(self.entries@),
                forall|j: int| 0 <= j < i ==> #[trigger] self.entries@[j].0@ != key@,
            decreases self.entries@.len() - i,
        {
            if same_text(self.entries[i].0.as_str(), key) {
                return Some(i);
            }
            i = i + 1;
        }
        proof {
            lemma_map_of_dom(self.entries@, key@);
        }
        None
    }

    /// Number of keys in the map.
    pub fn len(&self) -> (r: usize)
        ensures
            r == self@.len(),
    {
        proof {
            use_type_invariant(self);
            lemma_map_of_len(self.entries@);
        }
        self.entries.len()
    }

    /// Whether the map holds no key.
    pub fn is_empty(&self) -> (r: bool)
        ensures
            r == (self@ == Map::<Seq<char>, V>::empty()),
    {
        proof {
            use_type_invariant(self);
            if self.entries@.len() > 0 {
                lemma_map_of_index(self.entries@, 0);
                assert(self@.contains_key(self.entries@[0].0@));
            } else {
                assert(self@ =~= Map::<Seq<char>, V>::empty());
            }
        }
        self.entries.len() == 0
    }

    /// The value stored under `key`.
    pub fn get(&self, key: &str) -> (r: Option<&V>)
        ensures
            match r {
                Some(v) => self@.contains_key(key@) && *v == self@[key@],
                None => !self@.contains_key(key@),
            },
    {
        match self.find(key) {
            Some(i) => {
                proof {
                    lemma_map_of_index(self.entries@, i as int);
                }
                Some(&self.entries[i].1)
            },
            None => None,
        }
    }

    /// Stores `value` under `key`, replacing what was there.
    pub fn insert(&mut self, key: String, value: V)
        ensures
            final(self)@ == old(self)@.insert(key@, value),
    {
        let found = self.find(key.as_str());
        let mut e: Vec<(String, V)> = Vec::new();
        std::mem::swap(&mut e, &mut self.entries);
        match found {
            Some(i) => {
                proof {
                    lemma_map_of_update(e@, i as int, (key, value));
                }
                e.set(i, (key, value));
            },
            None => {
                proof {
                    lemma_map_of_dom(e@, key@);
                    let n = e@.push((key, value));
                    assert forall|a: int, b: int|
                        0 <= a < n.len() && 0 <= b < n.len() && a != b implies #[trigger] n[a].0@
                        != #[trigger] n[b].0@ by {
                        if a == n.len() - 1 {
                            assert(e@[b] == n[b]);
                        } else if b == n.len() - 1 {
                            assert(e@[a] == n[a]);
                        } else {
                            assert(e@[a] == n[a] && e@[b] == n[b]);
                        }
                    }
                    assert(n.drop_last() == e@);
                }
                e.push((key, value));
            },
        }
        self.entries = e;
    }

    /// Removes the entry under `key`, handing back what it held.
    pub fn remove(&mut self, key: &str) -> (r: Option<V>)
        ensures
            final(self)@ == old(self)@.remove(key@),
            r == (if old(self)@.contains_key(key@) {
                Some(old(self)@[key@])
            } else {
                None::<V>
            }),
    {
        let found = self.find(key);
        match found {
            Some(i) => {
                let mut e: Vec<(String, V)> = Vec::new();
                std::mem::swap(&mut e, &mut self.entries);
                proof {
                    lemma_map_of_index(e@, i as int);
                    lemma_map_of_remove(e@, i as int);
                }
                let (_, v) = e.remove(i);
                self.entries = e;
                Some(v)
            },
            None => {
                proof {
                    assert(self@.remove(key@) =~= self@);
                }
                None
            },
        }
    }

    /// The map's entries, one per key, in the order in which the keys were first stored.
    pub fn entries(&self) -> (r: &Vec<(String, V)>)
        ensures
            keys_distinct(r@),
            map_of(r@) == self@,
    {
        proof {
            use_type_invariant(self);
        }
        &self.entries
    }
}

impl TextMap<TokenSet> {
    /// Builds a map from decoded pairs; where a key repeats, the later pair wins.
    pub fn from_pairs(pairs: &Vec<(String, TokenSet)>) -> (r: OrgTokenMap)
        ensures
            r@ == map_of(pairs@),
    {
        let mut m: OrgTokenMap = TextMap::new();
        let mut i: usize = 0;
        while i < pairs.len()
            invariant
                i <= pairs@.len(),
                m@ == map_of(pairs@.subrange(0, i as int)),
            decreases pairs@.len() - i,
        {
            let k = pairs[i].0.clone();
            let t = pairs[i].1.duplicate();
            proof {
                assert(pairs@.subrange(0, i as int + 1).drop_last() == pairs@.subrange(0, i as int));
            }
            m.insert(k, t);
            i = i + 1;
        }
        assert(pairs@.subrange(0, pairs@.len() as int) == pairs@);
        m
    }
}

proof fn lemma_map_of_len<V>(e: Seq<(String, V)>)
    requires
        keys_distinct(e),
    ensures
        map_of(e).len() == e.len(),
        map_of(e).dom().finite(),
    decreases e.len(),
{
    if e.len() > 0 {
        lemma_distinct_prefix(e);
        lemma_map_of_len(e.drop_last());
    }
}

} // verus!
