//! The metadata record: key normalization, the `add` dispatcher, the
//! join disciplines and the merge.

use bikeshed::diagnostics::Diagnostic;
use bikeshed::join::Joinable;
use bikeshed::manager::MetadataManager;
use bikeshed::record::Metadata;

#[test]
fn add_sets_scalar_fields() {
    let mut md = Metadata::new();
    assert!(!md.has_keys);
    md.add_data("Title", "Hello", None).unwrap();
    assert_eq!(md.title, Some("Hello".to_string()));
    assert!(md.has_keys);
    md.add_data("Status", "LS", None).unwrap();
    assert_eq!(md.raw_status, Some("LS".to_string()));
    md.add_data("Shortname", "hello", None).unwrap();
    assert_eq!(md.shortname, Some("hello".to_string()));
    md.add_data("Date", "2024-03-04", None).unwrap();
    let d = md.date.unwrap();
    assert_eq!((d.year, d.month, d.day), (2024, 3, 4));
}

#[test]
fn add_normalizes_keys() {
    let mut md = Metadata::new();
    md.add_data("  title  ", "Hello", None).unwrap();
    assert_eq!(md.title, Some("Hello".to_string()));
    md.add_data("canonical url", "https://x.test/", None).unwrap();
    assert_eq!(md.canonical_url, Some("https://x.test/".to_string()));
    md.add_data("ED", "https://ed.test/", None).unwrap();
    assert_eq!(md.ed, Some("https://ed.test/".to_string()));
}

#[test]
fn add_rejects_unknown_keys() {
    let mut md = Metadata::new();
    match md.add_data("Widgets", "3", Some(2)) {
        Err(Diagnostic::UnknownKey { key, line }) => {
            assert_eq!(key, "Widgets");
            assert_eq!(line, Some(2));
        },
        _ => panic!("unknown key must be fatal"),
    }
    assert!(!md.has_keys);
}

#[test]
fn tr_is_not_title_cased_and_stays_unknown() {
    let mut md = Metadata::new();
    match md.add_data("TR", "https://tr.test/", Some(5)) {
        Err(Diagnostic::UnknownKey { key, .. }) => assert_eq!(key, "TR"),
        _ => panic!("TR is not a recognized field"),
    }
}

#[test]
fn add_rejects_bad_date() {
    let mut md = Metadata::new();
    match md.add_data("Date", "03/04/2024", Some(9)) {
        Err(Diagnostic::BadDate { line }) => assert_eq!(line, Some(9)),
        _ => panic!("malformed date must be fatal"),
    }
}

#[test]
fn add_level_none_is_set_but_empty() {
    let mut md = Metadata::new();
    md.add_data("Level", "none", None).unwrap();
    assert_eq!(md.level, Some("".to_string()));
    assert!(md.has_keys);
}

#[test]
fn abstract_appends() {
    let mut md = Metadata::new();
    md.add_data("Abstract", "one", None).unwrap();
    md.add_data("Abstract", "two", None).unwrap();
    assert_eq!(md.abs, vec!["one".to_string(), "two".to_string()]);
}

#[test]
fn compute_implicit_fills_canonical_url() {
    let mut md = Metadata::new();
    md.add_data("ED", "https://ed.test/", None).unwrap();
    md.compute_implicit_metadata();
    assert_eq!(md.canonical_url, Some("https://ed.test/".to_string()));

    let mut md2 = Metadata::new();
    md2.add_data("ED", "https://ed.test/", None).unwrap();
    md2.add_data("Canonical Url", "ED", None).unwrap();
    md2.compute_implicit_metadata();
    assert_eq!(md2.canonical_url, Some("https://ed.test/".to_string()));

    let mut md3 = Metadata::new();
    md3.add_data("ED", "https://ed.test/", None).unwrap();
    md3.add_data("Canonical Url", "https://keep.test/", None).unwrap();
    md3.compute_implicit_metadata();
    assert_eq!(md3.canonical_url, Some("https://keep.test/".to_string()));
}

#[test]
fn validate_demands_metadata() {
    let md = Metadata::new();
    assert!(matches!(md.validate(), Err(Diagnostic::NoMetadata)));
    let mut md2 = Metadata::new();
    md2.add_data("Group", "whatwg", None).unwrap();
    assert!(md2.validate().is_ok());
}

#[test]
fn join_scalars_replace_and_lists_extend() {
    let mut a = Metadata::new();
    a.add_data("Status", "LS", None).unwrap();
    a.add_data("Abstract", "one", None).unwrap();
    let mut b = Metadata::new();
    b.add_data("Status", "w3c/CR", None).unwrap();
    b.add_data("Abstract", "two", None).unwrap();
    b.add_data("Group", "w3c", None).unwrap();
    a.join(b);
    assert_eq!(a.raw_status, Some("w3c/CR".to_string()));
    assert_eq!(a.group, Some("w3c".to_string()));
    assert_eq!(a.abs, vec!["one".to_string(), "two".to_string()]);
}

#[test]
fn join_of_empty_record_is_a_noop() {
    let mut a = Metadata::new();
    a.add_data("Title", "T", None).unwrap();
    a.add_data("Abstract", "one", None).unwrap();
    a.join(Metadata::new());
    assert_eq!(a.title, Some("T".to_string()));
    assert_eq!(a.abs, vec!["one".to_string()]);
    assert!(a.has_keys);
}

#[test]
fn join_into_empty_preserves() {
    let mut a = Metadata::new();
    let mut b = Metadata::new();
    b.add_data("Title", "T", None).unwrap();
    b.add_data("Editor", "E", None).unwrap();
    b.add_data("Date", "2020-06-07", None).unwrap();
    a.join(b);
    assert_eq!(a.title, Some("T".to_string()));
    assert_eq!(a.editors, vec!["E".to_string()]);
    let d = a.date.unwrap();
    assert_eq!((d.year, d.month, d.day), (2020, 6, 7));
    assert!(a.has_keys);
}

#[test]
fn joinable_trait_on_field_shapes() {
    let mut s: Option<String> = Some("old".to_string());
    s.join(Some("new".to_string()));
    assert_eq!(s, Some("new".to_string()));
    s.join(None);
    assert_eq!(s, Some("new".to_string()));

    let mut v: Vec<String> = vec!["a".to_string()];
    v.join(vec!["b".to_string(), "c".to_string()]);
    assert_eq!(v, vec!["a".to_string(), "b".to_string(), "c".to_string()]);

    let mut m = Metadata::new();
    let mut o = Metadata::new();
    o.add_data("Group", "g", None).unwrap();
    Joinable::join(&mut m, o);
    assert_eq!(m.group, Some("g".to_string()));
}

#[test]
fn merge_precedence_over_three_records() {
    let mut mgr = MetadataManager::new();
    mgr.baseline.add_data("Status", "LS", None).unwrap();
    mgr.document.add_data("Status", "w3c/WD", None).unwrap();
    mgr.add_data(&"Status".to_string(), &"w3c/CR".to_string(), 1).unwrap();
    let merged = mgr.join_all().unwrap();
    assert_eq!(merged.raw_status, Some("w3c/CR".to_string()));

    let mut mgr2 = MetadataManager::new();
    mgr2.baseline.add_data("Group", "from-baseline", None).unwrap();
    mgr2.document.add_data("Title", "from-document", None).unwrap();
    let merged2 = mgr2.join_all().unwrap();
    assert_eq!(merged2.group, Some("from-baseline".to_string()));
    assert_eq!(merged2.title, Some("from-document".to_string()));
}

#[test]
fn merge_accumulates_lists_in_order() {
    let mut mgr = MetadataManager::new();
    mgr.baseline.add_data("Abstract", "one", None).unwrap();
    mgr.document.add_data("Abstract", "two", None).unwrap();
    mgr.document.add_data("Abstract", "three", None).unwrap();
    let merged = mgr.join_all().unwrap();
    assert_eq!(
        merged.abs,
        vec!["one".to_string(), "two".to_string(), "three".to_string()]
    );
}

#[test]
fn merge_of_nothing_is_fatal() {
    let mgr = MetadataManager::new();
    assert!(matches!(mgr.join_all(), Err(Diagnostic::NoMetadata)));
}
