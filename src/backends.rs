use vstd::prelude::*;

use crate::error::AuthError;
use crate::org_map::{opt_str, org_key, org_map_key, OrgTokenMap, TextMap};
use crate::store::{
    lookup, record_name, sanitize, sanitized, tokens_after_delete, tokens_to_save, BackendType,
    RecordKind, RecordUpdate,
};
use crate::text::same_text;
use crate::types::{ClientCredentials, TokenSet};

verus! {

/// Every site's token record, keyed by the sanitized site name; each record maps
/// org keys to token sets.
pub type TokenRecords = Map<Seq<char>, Map<Seq<char>, TokenSet>>;

/// The org map held for a site, or an empty one.
pub open spec fn site_record(recs: TokenRecords, site: Seq<char>) -> Map<Seq<char>, TokenSet> {
    if recs.contains_key(sanitized(site)) {
        recs[sanitized(site)]
    } else {
        Map::empty()
    }
}

/// The records after saving `t` for `org` on `site`: the site's whole map is rewritten.
pub open spec fn after_save(
    recs: TokenRecords,
    site: Seq<char>,
    org: Option<Seq<char>>,
    t: TokenSet,
) -> TokenRecords {
    recs.insert(sanitized(site), site_record(recs, site).insert(org_key(org), t))
}

/// What loading `org` on `site` returns.
pub open spec fn loaded(recs: TokenRecords, site: Seq<char>, org: Option<Seq<char>>) -> Option<
    TokenSet,
> {
    lookup(site_record(recs, site), org)
}

/// The records after deleting `org` on `site`; a site left with no org loses its record.
pub open spec fn after_delete(
    recs: TokenRecords,
    site: Seq<char>,
    org: Option<Seq<char>>,
) -> TokenRecords {
    let k = sanitized(site);
    if !recs.contains_key(k) {
        recs
    } else {
        let rest = recs[k].remove(org_key(org));
        if rest == Map::<Seq<char>, TokenSet>::empty() {
            recs.remove(k)
        } else {
            recs.insert(k, rest)
        }
    }
}

/// Two client registrations hold the same values.
pub open spec fn same_client(a: ClientCredentials, b: ClientCredentials) -> bool {
    &&& a.client_id == b.client_id
    &&& a.client_name == b.client_name
    &&& a.redirect_uris@ == b.redirect_uris@
    &&& a.registered_at == b.registered_at
    &&& a.site == b.site
}

/// A process-local store with the record semantics of the persistent backends:
/// one token record per site holding every org, and one client record per site.
/// Nothing in it outlives the process.
#[derive(Debug)]
pub struct MemoryStorage {
    tokens: TextMap<OrgTokenMap>,
    clients: TextMap<ClientCredentials>,
}

impl MemoryStorage {
    /// The token records, by sanitized site.
    pub closed spec fn token_records(&self) -> TokenRecords {
        self.tokens@.map_values(|m: OrgTokenMap| m@)
    }

    /// The client records, by sanitized site.
    pub closed spec fn client_records(&self) -> Map<Seq<char>, ClientCredentials> {
        self.clients@
    }

    /// A store with no record.
    pub fn new() -> (r: MemoryStorage)
        ensures
            r.token_records() == TokenRecords::empty(),
            r.client_records() == Map::<Seq<char>, ClientCredentials>::empty(),
    {
        let r = MemoryStorage { tokens: TextMap::new(), clients: TextMap::new() };
        assert(r.token_records() =~= TokenRecords::empty());
        r
    }

    /// Saves `tokens` for `org` on `site`, keeping the site's other orgs.
    pub fn save_tokens(&mut self, site: &str, org: Option<&str>, tokens: &TokenSet) -> (r: Result<
        (),
        AuthError,
    >)
        ensures
            r is Ok,
            final(self).token_records() == after_save(
                old(self).token_records(),
                site@,
                opt_str(org),
                *tokens,
            ),
            final(self).client_records() == old(self).client_records(),
    {
        let key = sanitize(site);
        let existing = match self.tokens.remove(key.as_str()) {
            Some(m) => Some(Ok(m)),
            None => None,
        };
        let m = tokens_to_save(existing, org, tokens);
        self.tokens.insert(key, m);
        assert(self.token_records() =~= after_save(
            old(self).token_records(),
            site@,
            opt_str(org),
            *tokens,
        ));
        Ok(())
    }

    /// The tokens saved for `org` on `site`, if any.
    pub fn load_tokens(&self, site: &str, org: Option<&str>) -> (r: Result<
        Option<TokenSet>,
        AuthError,
    >)
        ensures
            r == Ok::<Option<TokenSet>, AuthError>(loaded(self.token_records(), site@, opt_str(org))),
    {
        let key = sanitize(site);
        match self.tokens.get(key.as_str()) {
            Some(m) => {
                let okey = org_map_key(org);
                match m.get(okey) {
                    Some(t) => Ok(Some(t.duplicate())),
                    None => Ok(None),
                }
            },
            None => Ok(None),
        }
    }

    /// Deletes `org`'s tokens on `site`; deleting what is absent succeeds.
    pub fn delete_tokens(&mut self, site: &str, org: Option<&str>) -> (r: Result<(), AuthError>)
        ensures
            r is Ok,
            final(self).token_records() == after_delete(
                old(self).token_records(),
                site@,
                opt_str(org),
            ),
            final(self).client_records() == old(self).client_records(),
    {
        let key = sanitize(site);
        let existing = match self.tokens.remove(key.as_str()) {
            Some(m) => Some(Ok(m)),
            None => None,
        };
        match tokens_after_delete(existing, org) {
            RecordUpdate::Unchanged => {
                assert(self.tokens@ =~= old(self).tokens@);
            },
            RecordUpdate::Remove => {},
            RecordUpdate::Write(m) => {
                self.tokens.insert(key, m);
            },
        }
        assert(self.token_records() =~= after_delete(
            old(self).token_records(),
            site@,
            opt_str(org),
        ));
        Ok(())
    }

    /// Saves the client registration of `site`, replacing any earlier one.
    pub fn save_client_credentials(&mut self, site: &str, creds: &ClientCredentials) -> (r: Result<
        (),
        AuthError,
    >)
        ensures
            r is Ok,
            final(self).client_records().contains_key(sanitized(site@)),
            same_client(final(self).client_records()[sanitized(site@)], *creds),
            final(self).client_records().remove(sanitized(site@)) == old(
                self,
            ).client_records().remove(sanitized(site@)),
            final(self).token_records() == old(self).token_records(),
    {
        let key = sanitize(site);
        self.clients.insert(key, creds.duplicate());
        assert(self.clients@.remove(sanitized(site@)) =~= old(self).clients@.remove(
            sanitized(site@),
        ));
        Ok(())
    }

    /// The client registration saved for `site`, if any.
    pub fn load_client_credentials(&self, site: &str) -> (r: Result<
        Option<ClientCredentials>,
        AuthError,
    >)
        ensures
            r matches Ok(found) && match found {
                Some(c) => self.client_records().contains_key(sanitized(site@)) && same_client(
                    c,
                    self.client_records()[sanitized(site@)],
                ),
                None => !self.client_records().contains_key(sanitized(site@)),
            },
    {
        let key = sanitize(site);
        match self.clients.get(key.as_str()) {
            Some(c) => Ok(Some(c.duplicate())),
            None => Ok(None),
        }
    }

    /// Deletes the client registration of `site`; deleting what is absent succeeds.
    pub fn delete_client_credentials(&mut self, site: &str) -> (r: Result<(), AuthError>)
        ensures
            r is Ok,
            final(self).client_records() == old(self).client_records().remove(sanitized(site@)),
            final(self).token_records() == old(self).token_records(),
    {
        let key = sanitize(site);
        let _ = self.clients.remove(key.as_str());
        Ok(())
    }
}

/// Saving and then loading the same site and org gives back what was saved.
pub proof fn lemma_save_then_load(
    recs: TokenRecords,
    site: Seq<char>,
    org: Option<Seq<char>>,
    t: TokenSet,
)
    ensures
        loaded(after_save(recs, site, org, t), site, org) == Some(t),
{
}

/// Saving tokens for one org changes what loading any org with another key returns:
/// not at all.
pub proof fn lemma_orgs_isolated(
    recs: TokenRecords,
    site: Seq<char>,
    org: Option<Seq<char>>,
    other: Option<Seq<char>>,
    t: TokenSet,
)
    requires
        org_key(org) != org_key(other),
    ensures
        loaded(after_save(recs, site, org, t), site, other) == loaded(recs, site, other),
{
}

/// Saves for any number of orgs of one site touch a single record: the site's.
pub proof fn lemma_one_record_per_site(
    recs: TokenRecords,
    site: Seq<char>,
    org: Option<Seq<char>>,
    t: TokenSet,
)
    ensures
        after_save(recs, site, org, t).dom() == recs.dom().insert(sanitized(site)),
{
    assert(after_save(recs, site, org, t).dom() =~= recs.dom().insert(sanitized(site)));
}

/// Saving three orgs of one site into an empty store leaves exactly one record.
pub proof fn lemma_three_orgs_one_record(
    site: Seq<char>,
    orgs: (Option<Seq<char>>, Option<Seq<char>>, Option<Seq<char>>),
    t: (TokenSet, TokenSet, TokenSet),
)
    ensures
        after_save(
            after_save(after_save(TokenRecords::empty(), site, orgs.0, t.0), site, orgs.1, t.1),
            site,
            orgs.2,
            t.2,
        ).dom() == set![sanitized(site)],
{
    let r1 = after_save(TokenRecords::empty(), site, orgs.0, t.0);
    let r2 = after_save(r1, site, orgs.1, t.1);
    lemma_one_record_per_site(TokenRecords::empty(), site, orgs.0, t.0);
    lemma_one_record_per_site(r1, site, orgs.1, t.1);
    lemma_one_record_per_site(r2, site, orgs.2, t.2);
    assert(TokenRecords::empty().dom().insert(sanitized(site)) =~= set![sanitized(site)]);
    assert(set![sanitized(site)].insert(sanitized(site)) =~= set![sanitized(site)]);
}

/// Deleting the only org of a site removes the site's record altogether.
pub proof fn lemma_delete_last_org_removes_record(
    recs: TokenRecords,
    site: Seq<char>,
    org: Option<Seq<char>>,
)
    requires
        recs.contains_key(sanitized(site)),
        recs[sanitized(site)].dom() == set![org_key(org)],
    ensures
        !after_delete(recs, site, org).contains_key(sanitized(site)),
{
    let rest = recs[sanitized(site)].remove(org_key(org));
    assert(rest =~= Map::<Seq<char>, TokenSet>::empty());
}

/// Deleting one org leaves it absent and every other org of the site as it was.
pub proof fn lemma_delete_keeps_other_orgs(
    recs: TokenRecords,
    site: Seq<char>,
    org: Option<Seq<char>>,
    other: Option<Seq<char>>,
)
    ensures
        loaded(after_delete(recs, site, org), site, org) is None,
        org_key(org) != org_key(other) ==> loaded(after_delete(recs, site, org), site, other)
            == loaded(recs, site, other),
{
    let k = sanitized(site);
    if recs.contains_key(k) {
        let rest = recs[k].remove(org_key(org));
        if rest == Map::<Seq<char>, TokenSet>::empty() {
            if org_key(org) != org_key(other) {
                assert(!rest.contains_key(org_key(other)));
            }
        }
    }
}

/// The operations that every storage backend offers.
pub trait Storage {
    /// Which transport this backend uses.
    fn backend_type(&self) -> BackendType;

    /// Where the records live, as shown to users.
    fn storage_location(&self) -> String;

    /// Saves `tokens` for `org` on `site`, keeping the site's other orgs.
    fn save_tokens(&mut self, site: &str, org: Option<&str>, tokens: &TokenSet) -> Result<
        (),
        AuthError,
    >;

    /// The tokens saved for `org` on `site`, if any.
    fn load_tokens(&mut self, site: &str, org: Option<&str>) -> Result<Option<TokenSet>, AuthError>;

    /// Deletes `org`'s tokens on `site`; deleting what is absent succeeds.
    fn delete_tokens(&mut self, site: &str, org: Option<&str>) -> Result<(), AuthError>;

    /// Saves the client registration of `site`.
    fn save_client_credentials(&mut self, site: &str, creds: &ClientCredentials) -> Result<
        (),
        AuthError,
    >;

    /// The client registration saved for `site`, if any.
    fn load_client_credentials(&mut self, site: &str) -> Result<
        Option<ClientCredentials>,
        AuthError,
    >;

    /// Deletes the client registration of `site`; deleting what is absent succeeds.
    fn delete_client_credentials(&mut self, site: &str) -> Result<(), AuthError>;
}

/// A backend that keeps nothing: reads find nothing, writes of secrets fail, and
/// deletions succeed. For hosts with no durable storage, where credentials come
/// from the environment instead.
#[derive(Debug, Clone, Copy)]
pub struct InMemoryStorage;

impl Storage for InMemoryStorage {
    fn backend_type(&self) -> (r: BackendType)
        ensures
            r == BackendType::File,
    {
        BackendType::File
    }

    fn storage_location(&self) -> (r: String)
        ensures
            r@ == "in-memory"@,
    {
        String::from_str("in-memory")
    }

    /// Saving tokens always fails, loudly: there is nowhere to keep them.
    fn save_tokens(&mut self, site: &str, org: Option<&str>, tokens: &TokenSet) -> (r: Result<
        (),
        AuthError,
    >)
        ensures
            r matches Err(AuthError::StorageUnavailable { .. }),
    {
        Err(
            AuthError::StorageUnavailable {
                reason: String::from_str(
                    "token storage not available in this build; set DD_ACCESS_TOKEN instead",
                ),
            },
        )
    }

    /// Nothing is ever stored, so nothing is found; this is no error.
    fn load_tokens(&mut self, site: &str, org: Option<&str>) -> (r: Result<
        Option<TokenSet>,
        AuthError,
    >)
        ensures
            r == Ok::<Option<TokenSet>, AuthError>(None),
    {
        Ok(None)
    }

    /// Deleting what is absent succeeds.
    fn delete_tokens(&mut self, site: &str, org: Option<&str>) -> (r: Result<(), AuthError>)
        ensures
            r is Ok,
    {
        Ok(())
    }

    /// Saving a client registration always fails: there is nowhere to keep it.
    fn save_client_credentials(&mut self, site: &str, creds: &ClientCredentials) -> (r: Result<
        (),
        AuthError,
    >)
        ensures
            r matches Err(AuthError::StorageUnavailable { .. }),
    {
        Err(
            AuthError::StorageUnavailable {
                reason: String::from_str("client credential storage not available in this build"),
            },
        )
    }

    /// Nothing is ever stored, so nothing is found.
    fn load_client_credentials(&mut self, site: &str) -> (r: Result<
        Option<ClientCredentials>,
        AuthError,
    >)
        ensures
            r matches Ok(None),
    {
        Ok(None)
    }

    /// Deleting what is absent succeeds.
    fn delete_client_credentials(&mut self, site: &str) -> (r: Result<(), AuthError>)
        ensures
            r is Ok,
    {
        Ok(())
    }
}

/// What a read of a keychain entry answered.
#[derive(Debug, Clone, Copy, PartialEq, Eq, Structural)]
pub enum KeychainRead {
    /// The entry exists.
    Found,
    /// There is no such entry.
    NoEntry,
    /// The keychain failed in some other way.
    Failed,
}

/// Whether the keychain is usable, judged by a read of an entry that is not expected
/// to exist: finding nothing is benign; only another failure means unavailable.
pub fn keychain_available(probe: KeychainRead) -> (r: bool)
    ensures
        r == (probe != KeychainRead::Failed),
{
    match probe {
        KeychainRead::Found | KeychainRead::NoEntry => true,
        KeychainRead::Failed => false,
    }
}

/// Names the files of a config directory that hold tokens and client registrations.
#[derive(Debug, Clone)]
pub struct FileStorage {
    base_dir: String,
}

impl FileStorage {
    /// A file store rooted at `base_dir`.
    pub fn new(base_dir: String) -> (r: FileStorage)
        ensures
            r.base_dir() == base_dir@,
    {
        FileStorage { base_dir }
    }

    /// The directory that holds the records.
    pub closed spec fn base_dir(&self) -> Seq<char> {
        self.base_dir@
    }

    /// Where the records live, as shown to users.
    pub fn storage_location(&self) -> (r: String)
        ensures
            r@ == self.base_dir(),
    {
        self.base_dir.clone()
    }

    /// File name, within the base directory, of a site's record of the given kind.
    pub fn file_name(&self, kind: RecordKind, site: &str) -> (r: String)
        ensures
            r@ == crate::store::record_name_of(BackendType::File, kind, site@),
    {
        record_name(BackendType::File, kind, site)
    }
}

/// Names the OS keychain entries that hold tokens and client registrations.
#[derive(Debug, Clone, Copy)]
pub struct KeychainStorage;

/// Service name under which every keychain entry is filed.
pub const SERVICE_NAME: &'static str = "pup";

/// Account name of the entry used to probe whether the keychain answers.
pub const PROBE_ACCOUNT: &'static str = "__pup_test__";

impl KeychainStorage {
    /// Where the records live, as shown to users.
    pub fn storage_location(&self) -> (r: String)
        ensures
            r@ == "OS keychain"@,
    {
        String::from_str("OS keychain")
    }

    /// Account name of a site's entry of the given kind.
    pub fn account(&self, kind: RecordKind, site: &str) -> (r: String)
        ensures
            r@ == crate::store::record_name_of(BackendType::Keychain, kind, site@),
    {
        record_name(BackendType::Keychain, kind, site)
    }
}

/// Names the browser key/value entries that hold tokens and client registrations.
#[derive(Debug, Clone, Copy)]
pub struct LocalStorageBackend;

impl LocalStorageBackend {
    /// Where the records live, as shown to users.
    pub fn storage_location(&self) -> (r: String)
        ensures
            r@ == "browser localStorage"@,
    {
        String::from_str("browser localStorage")
    }

    /// Storage key of a site's entry of the given kind.
    pub fn item_key(&self, kind: RecordKind, site: &str) -> (r: String)
        ensures
            r@ == crate::store::record_name_of(BackendType::LocalStorage, kind, site@),
    {
        record_name(BackendType::LocalStorage, kind, site)
    }
}

/// The backend picked for this process, and the warnings owed to the user.
#[derive(Debug, Clone, Copy, PartialEq, Eq, Structural)]
pub struct BackendSelection {
    pub backend: BackendType,
    /// The override named no known backend and was ignored.
    pub unknown_override: bool,
    /// The keychain did not answer, so files are used instead.
    pub keychain_fallback: bool,
}

/// Whether an override asks for the keychain.
pub open spec fn asks_keychain(override_value: Option<&str>) -> bool {
    override_value matches Some(v) && v@ == "keychain"@
}

/// Picks the storage backend: an explicit override wins (`"file"` or `"keychain"`);
/// otherwise the keychain when it answers, else files with a warning. An explicit
/// keychain override is honoured only with a keychain that answers; the caller
/// stops before asking otherwise.
pub fn detect_backend(override_value: Option<&str>, keychain_available: bool) -> (r:
    BackendSelection)
    requires
        asks_keychain(override_value) ==> keychain_available,
    ensures
        override_value matches Some(v) && v@ == "file"@ ==> r == (BackendSelection {
            backend: BackendType::File,
            unknown_override: false,
            keychain_fallback: false,
        }),
        asks_keychain(override_value) ==> r == (BackendSelection {
            backend: BackendType::Keychain,
            unknown_override: false,
            keychain_fallback: false,
        }),
        !(override_value matches Some(v) && (v@ == "file"@ || v@ == "keychain"@)) ==> r == (
        BackendSelection {
            backend: if keychain_available {
                BackendType::Keychain
            } else {
                BackendType::File
            },
            unknown_override: override_value is Some,
            keychain_fallback: !keychain_available,
        }),
{
    proof {
        reveal_strlit("file");
        reveal_strlit("keychain");
        assert("file"@.len() != "keychain"@.len());
    }
    let mut unknown_override = false;
    match override_value {
        Some(v) => {
            if same_text(v, "file") {
                return BackendSelection {
                    backend: BackendType::File,
                    unknown_override: false,
                    keychain_fallback: false,
                };
            } else if same_text(v, "keychain") {
                return BackendSelection {
                    backend: BackendType::Keychain,
                    unknown_override: false,
                    keychain_fallback: false,
                };
            } else {
                unknown_override = true;
            }
        },
        None => {},
    }
    if keychain_available {
        BackendSelection { backend: BackendType::Keychain, unknown_override, keychain_fallback: false }
    } else {
        BackendSelection { backend: BackendType::File, unknown_override, keychain_fallback: true }
    }
}

} // verus!
