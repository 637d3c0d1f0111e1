use screen_lib::peers::PeerRegistry;

#[test]
fn lookup_after_insert_gives_address() {
    let mut r = PeerRegistry::new();
    r.insert("10.0.0.2:5000".to_string(), "10.0.0.2:5000".to_string());
    assert_eq!(r.get("10.0.0.2:5000").unwrap(), "10.0.0.2:5000");
    assert!(r.get("10.0.0.3:5000").is_none());
}

#[test]
fn insert_existing_peer_replaces_in_place() {
    let mut r = PeerRegistry::new();
    r.insert("a".to_string(), "1".to_string());
    r.insert("b".to_string(), "2".to_string());
    r.insert("a".to_string(), "3".to_string());
    assert_eq!(r.len(), 2);
    assert_eq!(r.get("a").unwrap(), "3");
    assert_eq!(r.get("b").unwrap(), "2");
    assert_eq!(r.addresses(), vec!["3".to_string(), "2".to_string()]);
}

#[test]
fn empty_registry_has_no_addresses() {
    let r = PeerRegistry::new();
    assert_eq!(r.len(), 0);
    assert!(r.addresses().is_empty());
}
