use fork_harness::assoc::AssocMap;

#[test]
fn later_value_replaces_earlier() {
    let map: AssocMap<String, u64> = AssocMap::new();
    assert!(map.is_empty());
    let map = map
        .insert("a".to_string(), 1)
        .insert("b".to_string(), 2)
        .insert("a".to_string(), 3);
    assert!(!map.is_empty());
    assert_eq!(map.get(&"a".to_string()), Some(&3));
    assert_eq!(map.get(&"b".to_string()), Some(&2));
    assert_eq!(map.get(&"c".to_string()), None);
}
