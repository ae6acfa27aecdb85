use keystore_import::error::{ErrorKind, Fault};
use keystore_import::registry::{Definition, Registry};

fn definition(identity: &str) -> Definition {
    Definition::imported(identity, &format!("/tmp/vals/0x{}/keystore.json", identity), None)
}

#[test]
fn imported_definition_is_enabled() {
    let d = Definition::imported("abc123", "/tmp/vals/0xabc123/keystore-0.json", Some("secret".to_string()));
    assert_eq!(d.identity, "abc123");
    assert_eq!(d.container_path, "/tmp/vals/0xabc123/keystore-0.json");
    assert_eq!(d.password, Some("secret".to_string()));
    assert!(d.enabled);
    assert_eq!(definition("abc123").password, None);
}

#[test]
fn new_registry_is_empty() {
    let r = Registry::new();
    assert_eq!(r.len(), 0);
    assert!(r.definitions().is_empty());
    assert!(!r.contains("abc123"));
}

#[test]
fn push_appends_in_order() {
    let mut r = Registry::new();
    r.push(definition("b"));
    r.push(definition("a"));
    assert_eq!(r.len(), 2);
    assert_eq!(r.definitions()[0], definition("b"));
    assert_eq!(r.definitions()[1], definition("a"));
    assert!(r.contains("a"));
    assert!(r.contains("b"));
    assert!(!r.contains("c"));
    assert!(!r.contains(""));
    assert!(!r.contains("ab"));
}

#[test]
fn from_definitions_accepts_distinct_identities() {
    let loaded = vec![definition("a"), definition("b"), definition("c")];
    let r = Registry::from_definitions(loaded.clone()).expect("distinct identities");
    assert_eq!(r.len(), 3);
    assert_eq!(r.definitions(), &loaded);
    assert_eq!(Registry::from_definitions(Vec::new()).expect("empty").len(), 0);
}

#[test]
fn from_definitions_refuses_a_repeated_identity() {
    let loaded = vec![definition("a"), definition("b"), definition("c"), definition("b"), definition("a")];
    let e = Registry::from_definitions(loaded).expect_err("b occurs twice");
    assert_eq!(e.fault, Fault::RegistryMalformed);
    assert_eq!(e.kind(), ErrorKind::Registry);
    assert_eq!(e.path, "");
    assert_eq!(e.cause, "b");
}
