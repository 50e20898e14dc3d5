use pup::alias::{delete_aliases, import_aliases, text_less, AliasError, AliasMap};

fn names(m: &AliasMap) -> Vec<String> {
    m.entries().iter().map(|(n, _)| n.clone()).collect()
}

#[test]
fn aliases_are_kept_in_name_order() {
    let mut m = AliasMap::new();
    m.set("mon".into(), "monitors list".into());
    m.set("inc".into(), "incidents list".into());
    m.set("zz".into(), "version".into());
    m.set("mon".into(), "monitors list --tags team:core".into());
    assert_eq!(names(&m), vec!["inc", "mon", "zz"]);
    assert_eq!(m.len(), 3);
    assert_eq!(m.entries()[1].1, "monitors list --tags team:core");
}

#[test]
fn deleting_a_missing_alias_fails_with_its_name() {
    let mut m = AliasMap::new();
    m.set("a".into(), "x".into());
    m.set("b".into(), "y".into());
    assert_eq!(
        delete_aliases(&mut m, &vec!["a".into(), "nope".into()]),
        Err(AliasError::NotFound { name: "nope".into() })
    );
    let mut m2 = AliasMap::new();
    m2.set("a".into(), "x".into());
    m2.set("b".into(), "y".into());
    assert_eq!(delete_aliases(&mut m2, &vec!["b".into()]), Ok(()));
    assert_eq!(names(&m2), vec!["a"]);
    assert_eq!(
        delete_aliases(&mut m2, &vec!["a".into(), "a".into()]),
        Err(AliasError::NotFound { name: "a".into() })
    );
}

#[test]
fn importing_merges_and_counts() {
    let mut m = AliasMap::new();
    m.set("a".into(), "old".into());
    let mut imported = AliasMap::new();
    imported.set("a".into(), "new".into());
    imported.set("c".into(), "z".into());
    assert_eq!(import_aliases(&mut m, &imported), Ok(2));
    assert_eq!(names(&m), vec!["a", "c"]);
    assert_eq!(m.entries()[0].1, "new");
    assert_eq!(
        import_aliases(&mut m, &AliasMap::new()),
        Err(AliasError::NothingToImport)
    );
    assert_eq!(m.len(), 2);
}

#[test]
fn text_order_is_lexicographic() {
    assert!(text_less("abc", "abd"));
    assert!(text_less("ab", "abc"));
    assert!(!text_less("abc", "ab"));
    assert!(!text_less("same", "same"));
    assert!(text_less("", "a"));
    assert!(text_less("Z", "a"));
}

#[test]
fn removing_reports_presence() {
    let mut m = AliasMap::new();
    m.set("x".into(), "1".into());
    assert!(m.remove("x"));
    assert!(!m.remove("x"));
    assert!(m.is_empty());
}
