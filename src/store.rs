use vstd::prelude::*;

use crate::error::AuthError;
use crate::org_map::{
    default_key, map_of, opt_str, org_key, org_map_key, OrgTokenMap, TextMap, DEFAULT_ORG_KEY,
};
use crate::text::push_char;
use crate::types::TokenSet;

verus! {

/// The transports through which tokens and client registrations are persisted.
#[derive(Debug, Clone, Copy, PartialEq, Eq, Structural)]
pub enum BackendType {
    Keychain,
    File,
    LocalStorage,
}

impl BackendType {
    /// The backend's name as shown to users.
    pub fn name(&self) -> (r: &'static str)
        ensures
            r@ == match self {
                BackendType::Keychain => "keychain"@,
                BackendType::File => "file"@,
                BackendType::LocalStorage => "localStorage"@,
            },
    {
        match self {
            BackendType::Keychain => "keychain",
            BackendType::File => "file",
            BackendType::LocalStorage => "localStorage",
        }
    }
}

/// Which of a site's two records is meant.
#[derive(Debug, Clone, Copy, PartialEq, Eq, Structural)]
pub enum RecordKind {
    /// The per-site map of org tokens.
    Tokens,
    /// The per-site client registration.
    Client,
}

/// Whether `char::is_alphanumeric` holds of `c`.
pub uninterp spec fn alnum(c: char) -> bool;

/// Relies on `char::is_alphanumeric`: whether a character is alphabetic or numeric.
#[verifier::external_body]
fn is_alphanumeric(c: char) -> (r: bool)
    ensures
        r == alnum(c),
{
    c.is_alphanumeric()
}

/// A site name with every character that is not alphanumeric replaced by '_'.
pub open spec fn sanitized(site: Seq<char>) -> Seq<char> {
    Seq::new(site.len(), |i: int| if alnum(site[i]) { site[i] } else { '_' })
}

/// Makes a site name safe to use inside a record name.
pub fn sanitize(site: &str) -> (r: String)
    ensures
        r@ == sanitized(site@),
{
    let n = site.unicode_len();
    let mut out = String::new();
    let mut i: usize = 0;
    while i < n
        invariant
            n == site@.len(),
            i <= n,
            out@ == sanitized(site@).subrange(0, i as int),
        decreases n - i,
    {
        let c = site.get_char(i);
        if is_alphanumeric(c) {
            push_char(&mut out, c);
        } else {
            push_char(&mut out, '_');
        }
        assert(out@ =~= sanitized(site@).subrange(0, i as int + 1));
        i = i + 1;
    }
    assert(out@ =~= sanitized(site@));
    out
}

/// Name of a site's record of the given kind in the given backend.
pub open spec fn record_name_of(backend: BackendType, kind: RecordKind, site: Seq<char>) -> Seq<char> {
    let scope = if backend == BackendType::LocalStorage {
        "pup_"@
    } else {
        Seq::empty()
    };
    let stem = if kind == RecordKind::Tokens {
        "tokens_"@
    } else {
        "client_"@
    };
    let ext = if backend == BackendType::File {
        ".json"@
    } else {
        Seq::empty()
    };
    scope + stem + sanitized(site) + ext
}

/// Name of a site's record of the given kind in the given backend: a file
/// name, a keychain account or a browser-storage key.
pub fn record_name(backend: BackendType, kind: RecordKind, site: &str) -> (r: String)
    ensures
        r@ == record_name_of(backend, kind, site@),
{
    let mut out = String::new();
    if backend == BackendType::LocalStorage {
        out.append("pup_");
    }
    if kind == RecordKind::Tokens {
        out.append("tokens_");
    } else {
        out.append("client_");
    }
    let s = sanitize(site);
    out.append(s.as_str());
    if backend == BackendType::File {
        out.append(".json");
    }
    assert(out@ =~= record_name_of(backend, kind, site@));
    out
}

/// Reads a decoded token record: the org-map shape when the blob decoded as one,
/// otherwise a legacy bare token set promoted to the default org, otherwise an error.
pub fn parse_token_map(as_map: Option<Vec<(String, TokenSet)>>, as_bare: Option<TokenSet>) -> (r:
    Result<OrgTokenMap, AuthError>)
    ensures
        as_map is Some ==> (r matches Ok(m) && m@ == map_of(as_map->0@)),
        (as_map is None && as_bare is Some) ==> (r matches Ok(m) && m@ == Map::<
            Seq<char>,
            TokenSet,
        >::empty().insert(default_key(), as_bare->0)),
        (as_map is None && as_bare is None) ==> r == Err::<OrgTokenMap, AuthError>(
            AuthError::UnrecognisedTokenFormat,
        ),
{
    match as_map {
        Some(pairs) => {
            Ok(TextMap::from_pairs(&pairs))
        },
        None => match as_bare {
            Some(t) => {
                let mut m: OrgTokenMap = TextMap::new();
                proof {
                    reveal_strlit("__default__");
                }
                let key = String::from_str(DEFAULT_ORG_KEY);
                assert(key@ =~= default_key());
                m.insert(key, t);
                Ok(m)
            },
            None => Err(AuthError::UnrecognisedTokenFormat),
        },
    }
}

/// What a backend found under a site's token record: nothing, or the outcome of reading it.
pub type StoredTokens = Option<Result<OrgTokenMap, AuthError>>;

/// The org map that a write starts from: the stored one, or an empty one when the
/// record is absent or unreadable.
pub open spec fn base_of(existing: StoredTokens) -> Map<Seq<char>, TokenSet> {
    match existing {
        Some(Ok(m)) => m@,
        _ => Map::empty(),
    }
}

/// The tokens stored for an org in a site's map.
pub open spec fn lookup(m: Map<Seq<char>, TokenSet>, org: Option<Seq<char>>) -> Option<TokenSet> {
    if m.contains_key(org_key(org)) {
        Some(m[org_key(org)])
    } else {
        None
    }
}

/// The org map to write back after saving `tokens` for `org`.
pub fn tokens_to_save(existing: StoredTokens, org: Option<&str>, tokens: &TokenSet) -> (r: OrgTokenMap)
    ensures
        r@ == base_of(existing).insert(org_key(opt_str(org)), *tokens),
{
    let mut m = match existing {
        Some(Ok(m)) => m,
        _ => TextMap::new(),
    };
    let key = org_map_key(org);
    m.insert(String::from_str(key), tokens.duplicate());
    m
}

/// The tokens of `org` in what a backend found: none when the record is absent,
/// the read error when it could not be read.
pub fn token_from_record(existing: StoredTokens, org: Option<&str>) -> (r: Result<
    Option<TokenSet>,
    AuthError,
>)
    ensures
        match existing {
            None => r == Ok::<Option<TokenSet>, AuthError>(None),
            Some(Err(e)) => r == Err::<Option<TokenSet>, AuthError>(e),
            Some(Ok(m)) => r == Ok::<Option<TokenSet>, AuthError>(lookup(m@, opt_str(org))),
        },
{
    match existing {
        None => Ok(None),
        Some(Err(e)) => Err(e),
        Some(Ok(m)) => {
            let key = org_map_key(org);
            match m.get(key) {
                Some(t) => Ok(Some(t.duplicate())),
                None => Ok(None),
            }
        },
    }
}

/// What a backend must do to a site's token record.
#[derive(Debug)]
pub enum RecordUpdate {
    /// Leave the record as it is (it does not exist).
    Unchanged,
    /// Remove the record: no org is left in it.
    Remove,
    /// Write this map as the record's whole new content.
    Write(OrgTokenMap),
}

/// The record update after deleting `org`'s tokens; a map left empty removes the record.
pub fn tokens_after_delete(existing: StoredTokens, org: Option<&str>) -> (r: RecordUpdate)
    ensures
        existing is None ==> r is Unchanged,
        existing is Some ==> {
            let rest = base_of(existing).remove(org_key(opt_str(org)));
            if rest == Map::<Seq<char>, TokenSet>::empty() {
                r is Remove
            } else {
                (r matches RecordUpdate::Write(m) && m@ == rest)
            }
        },
{
    if existing.is_none() {
        return RecordUpdate::Unchanged;
    }
    let mut m = match existing {
        Some(Ok(m)) => m,
        _ => TextMap::new(),
    };
    let key = org_map_key(org);
    let _ = m.remove(key);
    if m.is_empty() {
        RecordUpdate::Remove
    } else {
        RecordUpdate::Write(m)
    }
}

/// A legacy record (one bare token set) reads as the default session and as no other org.
pub proof fn lemma_legacy_record_is_default_session(t: TokenSet, org: Option<Seq<char>>)
    ensures
        lookup(Map::<Seq<char>, TokenSet>::empty().insert(default_key(), t), None) == Some(t),
        org_key(org) != default_key() ==> lookup(
            Map::<Seq<char>, TokenSet>::empty().insert(default_key(), t),
            org,
        ) is None,
{
}

} // verus!
