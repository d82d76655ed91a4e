use antielectrophile::registry::HostRegistry;

#[test]
fn new_registry_is_empty() {
    let registry = HostRegistry::new();
    assert!(registry.is_empty());
    assert_eq!(registry.len(), 0);
    assert!(registry.snapshot_in_order().is_empty());
    assert!(!registry.contains("01:02:03:04:05:06"));
}

#[test]
fn observing_twice_keeps_one_entry() {
    let mut registry = HostRegistry::new();
    registry.observe("01:02:03:04:05:06".to_string());
    registry.observe("01:02:03:04:05:06".to_string());
    assert_eq!(registry.len(), 1);
    assert!(registry.contains("01:02:03:04:05:06"));
    assert_eq!(registry.snapshot_in_order(), vec!["01:02:03:04:05:06".to_string()]);
}

#[test]
fn distinct_addresses_keep_first_seen_order() {
    let mut registry = HostRegistry::new();
    registry.observe("AA:AA:AA:AA:AA:AA".to_string());
    registry.observe("07:08:09:0A:0B:0C".to_string());
    assert_eq!(registry.len(), 2);
    assert_eq!(
        registry.snapshot_in_order(),
        vec!["AA:AA:AA:AA:AA:AA".to_string(), "07:08:09:0A:0B:0C".to_string()]
    );
    registry.observe("AA:AA:AA:AA:AA:AA".to_string());
    registry.observe("00:00:00:00:00:01".to_string());
    registry.observe("07:08:09:0A:0B:0C".to_string());
    assert_eq!(
        registry.snapshot_in_order(),
        vec![
            "AA:AA:AA:AA:AA:AA".to_string(),
            "07:08:09:0A:0B:0C".to_string(),
            "00:00:00:00:00:01".to_string()
        ]
    );
    assert!(!registry.is_empty());
    assert!(registry.contains("00:00:00:00:00:01"));
    assert!(!registry.contains("00:00:00:00:00:02"));
}

#[test]
fn snapshot_and_clone_do_not_share_state() {
    let mut registry = HostRegistry::new();
    registry.observe("01:02:03:04:05:06".to_string());
    let snapshot = registry.snapshot_in_order();
    let copy = registry.clone();
    registry.observe("07:08:09:0A:0B:0C".to_string());
    assert_eq!(snapshot.len(), 1);
    assert_eq!(copy.len(), 1);
    assert_eq!(registry.len(), 2);
    registry.distinct_entries();
    assert_eq!(registry.len(), 2);
}
