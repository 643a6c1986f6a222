use strokers::vecmap::VecMap;

#[test]
fn test_vecmap_insert_and_get() {
    let mut m: VecMap<&str> = VecMap::new();
    assert_eq!(m.len(), 0);
    m.insert(5, "five");
    m.insert(2, "two");
    m.insert(9, "nine");
    assert_eq!(m.len(), 3);
    assert_eq!(m.get(2), Some(&"two"));
    assert_eq!(m.get(5), Some(&"five"));
    assert_eq!(m.get(9), Some(&"nine"));
    assert_eq!(m.get(7), None);
}

#[test]
fn test_vecmap_insert_replaces_equal_key() {
    let mut m: VecMap<&str> = VecMap::new();
    m.insert(4, "old");
    m.insert(4, "new");
    assert_eq!(m.len(), 1);
    assert_eq!(m.get(4), Some(&"new"));
}

#[test]
fn test_vecmap_iterates_in_key_order() {
    let mut m: VecMap<&str> = VecMap::new();
    m.insert(30, "c");
    m.insert(10, "a");
    m.insert(20, "b");
    let mut keys = Vec::new();
    for i in 0..m.len() {
        keys.push(m.entry_at(i).0);
    }
    assert_eq!(keys, vec![10, 20, 30]);
}
