use pup::backends::{
    detect_backend, keychain_available, KeychainRead, FileStorage, InMemoryStorage, KeychainStorage, LocalStorageBackend,
    MemoryStorage, Storage,
};
use pup::error::AuthError;
use pup::org_map::{org_map_key, OrgTokenMap, TextMap, DEFAULT_ORG_KEY};
use pup::store::{
    parse_token_map, record_name, sanitize, token_from_record, tokens_after_delete,
    tokens_to_save, BackendType, RecordKind, RecordUpdate,
};
use pup::types::TokenSet;

fn make_token(access: &str) -> TokenSet {
    TokenSet {
        access_token: access.to_string(),
        refresh_token: "refresh".into(),
        token_type: "Bearer".into(),
        expires_in: 9_999_999_999,
        issued_at: 0,
        scope: String::new(),
        client_id: String::new(),
    }
}

fn file_count(store: &MemoryStorage, sites: &[&str]) -> usize {
    // A site has a record exactly when some org of it loads.
    sites
        .iter()
        .filter(|s| {
            ["", "prod", "staging", "x"].iter().any(|o| {
                let org = if o.is_empty() { None } else { Some(*o) };
                store.load_tokens(s, org).unwrap().is_some()
            })
        })
        .count()
}

#[test]
fn test_org_map_key_none() {
    assert_eq!(org_map_key(None), DEFAULT_ORG_KEY);
}

#[test]
fn test_org_map_key_empty_string() {
    assert_eq!(org_map_key(Some("")), DEFAULT_ORG_KEY);
}

#[test]
fn test_org_map_key_named() {
    assert_eq!(org_map_key(Some("prod-child")), "prod-child");
}

#[test]
fn test_parse_token_map_new_format() {
    let pairs = vec![(DEFAULT_ORG_KEY.to_string(), make_token("tok1"))];
    let parsed = parse_token_map(Some(pairs), None).unwrap();
    assert_eq!(parsed.get(DEFAULT_ORG_KEY).unwrap().access_token, "tok1");
}

#[test]
fn test_parse_token_map_multiple_orgs() {
    let pairs = vec![
        (DEFAULT_ORG_KEY.to_string(), make_token("default_tok")),
        ("prod".to_string(), make_token("prod_tok")),
    ];
    let parsed = parse_token_map(Some(pairs), None).unwrap();
    assert_eq!(parsed.len(), 2);
    assert_eq!(parsed.get(DEFAULT_ORG_KEY).unwrap().access_token, "default_tok");
    assert_eq!(parsed.get("prod").unwrap().access_token, "prod_tok");
}

#[test]
fn test_parse_token_map_legacy_migration() {
    let parsed = parse_token_map(None, Some(make_token("legacy_tok"))).unwrap();
    assert_eq!(parsed.len(), 1);
    assert_eq!(parsed.get(DEFAULT_ORG_KEY).unwrap().access_token, "legacy_tok");
}

#[test]
fn test_parse_token_map_invalid_json() {
    assert!(parse_token_map(None, None).is_err());
    assert_eq!(
        parse_token_map(None, None).unwrap_err(),
        AuthError::UnrecognisedTokenFormat
    );
}

#[test]
fn parse_token_map_prefers_map_shape_and_later_pairs() {
    let pairs = vec![
        ("prod".to_string(), make_token("first")),
        ("prod".to_string(), make_token("second")),
    ];
    let parsed = parse_token_map(Some(pairs), Some(make_token("bare"))).unwrap();
    assert_eq!(parsed.len(), 1);
    assert_eq!(parsed.get("prod").unwrap().access_token, "second");
    assert!(parsed.get(DEFAULT_ORG_KEY).is_none());
}

#[test]
fn test_file_storage_save_load_default_org() {
    let mut store = MemoryStorage::new();
    store
        .save_tokens("datadoghq.com", None, &make_token("default_tok"))
        .unwrap();
    let loaded = store.load_tokens("datadoghq.com", None).unwrap().unwrap();
    assert_eq!(loaded.access_token, "default_tok");
}

#[test]
fn test_file_storage_save_load_named_org() {
    let mut store = MemoryStorage::new();
    store
        .save_tokens("datadoghq.com", Some("prod-child"), &make_token("prod_tok"))
        .unwrap();
    let loaded = store
        .load_tokens("datadoghq.com", Some("prod-child"))
        .unwrap()
        .unwrap();
    assert_eq!(loaded.access_token, "prod_tok");
}

#[test]
fn test_file_storage_multiple_orgs_one_file() {
    let mut store = MemoryStorage::new();
    store
        .save_tokens("datadoghq.com", None, &make_token("default_tok"))
        .unwrap();
    store
        .save_tokens("datadoghq.com", Some("prod"), &make_token("prod_tok"))
        .unwrap();
    store
        .save_tokens("datadoghq.com", Some("staging"), &make_token("staging_tok"))
        .unwrap();

    // Every org of the site lands in the one record named after the site.
    let file = FileStorage::new("/tmp/pup".to_string());
    assert_eq!(
        file.file_name(RecordKind::Tokens, "datadoghq.com"),
        "tokens_datadoghq_com.json"
    );
    assert_eq!(file_count(&store, &["datadoghq.com"]), 1);

    assert_eq!(
        store.load_tokens("datadoghq.com", None).unwrap().unwrap().access_token,
        "default_tok"
    );
    assert_eq!(
        store
            .load_tokens("datadoghq.com", Some("prod"))
            .unwrap()
            .unwrap()
            .access_token,
        "prod_tok"
    );
    assert_eq!(
        store
            .load_tokens("datadoghq.com", Some("staging"))
            .unwrap()
            .unwrap()
            .access_token,
        "staging_tok"
    );
}

#[test]
fn test_file_storage_org_isolation() {
    let mut store = MemoryStorage::new();
    store
        .save_tokens("datadoghq.com", Some("prod"), &make_token("prod_tok"))
        .unwrap();
    assert!(store.load_tokens("datadoghq.com", None).unwrap().is_none());
    assert!(store
        .load_tokens("datadoghq.com", Some("staging"))
        .unwrap()
        .is_none());
}

#[test]
fn test_file_storage_delete_last_org_removes_file() {
    let existing = tokens_to_save(None, None, &make_token("tok"));
    let update = tokens_after_delete(Some(Ok(existing)), None);
    assert!(
        matches!(update, RecordUpdate::Remove),
        "file should be removed when last org is deleted"
    );
    assert_eq!(
        record_name(BackendType::File, RecordKind::Tokens, "datadoghq.com"),
        "tokens_datadoghq_com.json"
    );
}

#[test]
fn test_file_storage_delete_one_org_keeps_others() {
    let mut store = MemoryStorage::new();
    store
        .save_tokens("datadoghq.com", None, &make_token("default_tok"))
        .unwrap();
    store
        .save_tokens("datadoghq.com", Some("prod"), &make_token("prod_tok"))
        .unwrap();
    store.delete_tokens("datadoghq.com", Some("prod")).unwrap();

    assert_eq!(
        store.load_tokens("datadoghq.com", None).unwrap().unwrap().access_token,
        "default_tok"
    );
    assert!(store
        .load_tokens("datadoghq.com", Some("prod"))
        .unwrap()
        .is_none());
}

#[test]
fn test_file_storage_delete_nonexistent_is_ok() {
    let mut store = MemoryStorage::new();
    assert!(store.delete_tokens("datadoghq.com", None).is_ok());
    assert!(matches!(
        tokens_after_delete(None, None),
        RecordUpdate::Unchanged
    ));
}

#[test]
fn test_file_storage_legacy_migration() {
    let record = parse_token_map(None, Some(make_token("legacy_tok")));
    let loaded = token_from_record(Some(record), None).unwrap().unwrap();
    assert_eq!(loaded.access_token, "legacy_tok");

    let record = parse_token_map(None, Some(make_token("legacy_tok")));
    assert!(token_from_record(Some(record), Some("prod")).unwrap().is_none());
}

#[test]
fn memory_storage_deleting_last_org_leaves_no_record() {
    let mut store = MemoryStorage::new();
    store.save_tokens("datadoghq.com", Some("prod"), &make_token("p")).unwrap();
    store.save_tokens("datadoghq.eu", None, &make_token("e")).unwrap();
    assert_eq!(file_count(&store, &["datadoghq.com", "datadoghq.eu"]), 2);
    store.delete_tokens("datadoghq.com", Some("prod")).unwrap();
    assert_eq!(file_count(&store, &["datadoghq.com", "datadoghq.eu"]), 1);
    assert_eq!(
        store.load_tokens("datadoghq.eu", None).unwrap().unwrap().access_token,
        "e"
    );
}

#[test]
fn memory_storage_round_trip_for_default_and_named_org() {
    let mut store = MemoryStorage::new();
    let t = make_token("abc");
    store.save_tokens("us5.datadoghq.com", None, &t).unwrap();
    store.save_tokens("us5.datadoghq.com", Some("x"), &make_token("xyz")).unwrap();
    let a = store.load_tokens("us5.datadoghq.com", None).unwrap().unwrap();
    let b = store.load_tokens("us5.datadoghq.com", Some("x")).unwrap().unwrap();
    assert_eq!(a.access_token, "abc");
    assert_eq!(a.refresh_token, "refresh");
    assert_eq!(a.expires_in, 9_999_999_999);
    assert_eq!(b.access_token, "xyz");
    // An empty org label is the default session.
    let c = store.load_tokens("us5.datadoghq.com", Some("")).unwrap().unwrap();
    assert_eq!(c.access_token, "abc");
}

#[test]
fn memory_storage_saving_again_replaces_the_org_entry() {
    let mut store = MemoryStorage::new();
    store.save_tokens("datadoghq.com", Some("prod"), &make_token("old")).unwrap();
    store.save_tokens("datadoghq.com", Some("prod"), &make_token("new")).unwrap();
    assert_eq!(
        store.load_tokens("datadoghq.com", Some("prod")).unwrap().unwrap().access_token,
        "new"
    );
}

#[test]
fn memory_storage_client_credentials_by_site() {
    let mut store = MemoryStorage::new();
    let creds = pup::types::ClientCredentials {
        client_id: "cid".into(),
        client_name: "pup".into(),
        redirect_uris: vec!["http://127.0.0.1:8000/callback".into()],
        registered_at: 42,
        site: "datadoghq.com".into(),
    };
    store.save_client_credentials("datadoghq.com", &creds).unwrap();
    let loaded = store.load_client_credentials("datadoghq.com").unwrap().unwrap();
    assert_eq!(loaded.client_id, "cid");
    assert_eq!(loaded.redirect_uris, vec!["http://127.0.0.1:8000/callback".to_string()]);
    assert!(store.load_client_credentials("datadoghq.eu").unwrap().is_none());
    store.delete_client_credentials("datadoghq.com").unwrap();
    assert!(store.load_client_credentials("datadoghq.com").unwrap().is_none());
    assert!(store.delete_client_credentials("datadoghq.com").is_ok());
}

#[test]
fn unreadable_record_is_an_error_on_load_and_replaced_on_save() {
    let bad: Option<Result<OrgTokenMap, AuthError>> = Some(Err(AuthError::UnrecognisedTokenFormat));
    assert_eq!(
        token_from_record(bad, None).unwrap_err(),
        AuthError::UnrecognisedTokenFormat
    );
    let bad: Option<Result<OrgTokenMap, AuthError>> = Some(Err(AuthError::UnrecognisedTokenFormat));
    let m = tokens_to_save(bad, Some("prod"), &make_token("p"));
    assert_eq!(m.len(), 1);
    assert_eq!(m.get("prod").unwrap().access_token, "p");
}

#[test]
fn deleting_from_a_shared_record_rewrites_it() {
    let mut m: OrgTokenMap = TextMap::new();
    m.insert(DEFAULT_ORG_KEY.to_string(), make_token("d"));
    m.insert("prod".to_string(), make_token("p"));
    match tokens_after_delete(Some(Ok(m)), Some("prod")) {
        RecordUpdate::Write(rest) => {
            assert_eq!(rest.len(), 1);
            assert_eq!(rest.get(DEFAULT_ORG_KEY).unwrap().access_token, "d");
        }
        other => panic!("expected a rewrite, got {other:?}"),
    }
}

#[test]
fn record_names_per_backend() {
    assert_eq!(sanitize("datadoghq.com"), "datadoghq_com");
    assert_eq!(sanitize("us3.datadoghq.com"), "us3_datadoghq_com");
    assert_eq!(
        record_name(BackendType::Keychain, RecordKind::Tokens, "datadoghq.com"),
        "tokens_datadoghq_com"
    );
    assert_eq!(
        record_name(BackendType::Keychain, RecordKind::Client, "datadoghq.com"),
        "client_datadoghq_com"
    );
    assert_eq!(
        record_name(BackendType::File, RecordKind::Client, "datadoghq.eu"),
        "client_datadoghq_eu.json"
    );
    assert_eq!(
        record_name(BackendType::LocalStorage, RecordKind::Tokens, "datadoghq.com"),
        "pup_tokens_datadoghq_com"
    );
    assert_eq!(
        KeychainStorage.account(RecordKind::Tokens, "ap1.datadoghq.com"),
        "tokens_ap1_datadoghq_com"
    );
    assert_eq!(
        LocalStorageBackend.item_key(RecordKind::Client, "datadoghq.com"),
        "pup_client_datadoghq_com"
    );
    assert_eq!(KeychainStorage.storage_location(), "OS keychain");
    assert_eq!(LocalStorageBackend.storage_location(), "browser localStorage");
    assert_eq!(FileStorage::new("/home/u/.config/pup".into()).storage_location(), "/home/u/.config/pup");
    assert_eq!(BackendType::Keychain.name(), "keychain");
    assert_eq!(BackendType::File.name(), "file");
    assert_eq!(BackendType::LocalStorage.name(), "localStorage");
}

#[test]
fn in_memory_storage_refuses_writes_and_finds_nothing() {
    let mut store = InMemoryStorage;
    assert!(matches!(
        store.save_tokens("datadoghq.com", None, &make_token("t")),
        Err(AuthError::StorageUnavailable { .. })
    ));
    assert!(matches!(
        store.save_client_credentials(
            "datadoghq.com",
            &pup::types::ClientCredentials {
                client_id: "c".into(),
                client_name: "n".into(),
                redirect_uris: vec![],
                registered_at: 0,
                site: "datadoghq.com".into(),
            }
        ),
        Err(AuthError::StorageUnavailable { .. })
    ));
    assert!(store.load_tokens("datadoghq.com", None).unwrap().is_none());
    assert!(store.load_client_credentials("datadoghq.com").unwrap().is_none());
    assert!(store.delete_tokens("datadoghq.com", None).is_ok());
    assert!(store.delete_client_credentials("datadoghq.com").is_ok());
    assert_eq!(store.backend_type(), BackendType::File);
}

#[test]
fn backend_selection() {
    let f = detect_backend(Some("file"), true);
    assert_eq!(f.backend, BackendType::File);
    assert!(!f.unknown_override && !f.keychain_fallback);

    let k = detect_backend(Some("keychain"), true);
    assert_eq!(k.backend, BackendType::Keychain);
    assert!(!k.unknown_override && !k.keychain_fallback);

    let auto = detect_backend(None, true);
    assert_eq!(auto.backend, BackendType::Keychain);
    assert!(!auto.keychain_fallback);

    let fallback = detect_backend(None, false);
    assert_eq!(fallback.backend, BackendType::File);
    assert!(fallback.keychain_fallback && !fallback.unknown_override);

    let odd = detect_backend(Some("vault"), false);
    assert_eq!(odd.backend, BackendType::File);
    assert!(odd.unknown_override && odd.keychain_fallback);
}

#[test]
fn keychain_probe_tolerates_a_missing_entry() {
    assert!(keychain_available(KeychainRead::NoEntry));
    assert!(keychain_available(KeychainRead::Found));
    assert!(!keychain_available(KeychainRead::Failed));
}
