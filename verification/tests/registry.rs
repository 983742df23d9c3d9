use tidewave_core::registry::Registry;

#[test]
fn entries_are_found_under_their_keys() {
    let mut registry: Registry<u64> = Registry::new();
    registry.insert("a".to_string(), 1);
    registry.insert("b".to_string(), 2);
    assert_eq!(registry.len(), 2);
    assert_eq!(registry.get("a"), Some(&1));
    assert_eq!(registry.get("b"), Some(&2));
    assert_eq!(registry.get("c"), None);
}

#[test]
fn a_later_insert_replaces_the_value() {
    let mut registry: Registry<u64> = Registry::new();
    registry.insert("a".to_string(), 1);
    registry.insert("a".to_string(), 2);
    assert_eq!(registry.len(), 1);
    assert_eq!(registry.get("a"), Some(&2));
}

#[test]
fn removing_keeps_the_others() {
    let mut registry: Registry<u64> = Registry::new();
    for (i, key) in ["a", "b", "c", "d"].iter().enumerate() {
        registry.insert(key.to_string(), i as u64);
    }
    assert_eq!(registry.remove("b"), Some(1));
    assert_eq!(registry.remove("b"), None);
    assert_eq!(registry.len(), 3);
    assert_eq!(registry.get("a"), Some(&0));
    assert_eq!(registry.get("c"), Some(&2));
    assert_eq!(registry.get("d"), Some(&3));
    assert!(!registry.contains_key("b"));
}

#[test]
fn values_can_be_changed_in_place() {
    let mut registry: Registry<Vec<u64>> = Registry::new();
    registry.insert("a".to_string(), Vec::new());
    registry.get_mut("a").unwrap().push(5);
    assert_eq!(registry.get("a"), Some(&vec![5]));
    assert!(registry.get_mut("z").is_none());
}

#[test]
fn entries_stand_in_the_order_of_their_insertion() {
    let mut registry: Registry<u64> = Registry::new();
    registry.insert("x".to_string(), 1);
    registry.insert("y".to_string(), 2);
    assert_eq!(registry.key_at(0), "x");
    assert_eq!(*registry.value_at(1), 2);
}
