use deos_mcpd::table::Table;

#[test]
fn keys_are_kept_once() {
    let mut t: Table<u32> = Table::new();
    t.insert("a".to_string(), 1);
    t.insert("b".to_string(), 2);
    t.insert("a".to_string(), 3);
    assert_eq!(t.len(), 2);
    let mut entries: Vec<(String, u32)> = (0..t.len())
        .map(|i| (t.entry(i).0.clone(), *t.entry(i).1))
        .collect();
    entries.sort();
    assert_eq!(entries, [("a".to_string(), 3), ("b".to_string(), 2)]);
}

#[test]
fn removal_gives_the_value_back() {
    let mut t: Table<u32> = Table::new();
    t.insert("a".to_string(), 1);
    t.insert("b".to_string(), 2);
    assert_eq!(t.remove("a"), Some(1));
    assert_eq!(t.remove("a"), None);
    assert_eq!(t.len(), 1);
    assert_eq!(t.entry(0).0, "b");
}

#[test]
fn draining_empties() {
    let mut t: Table<u32> = Table::new();
    t.insert("a".to_string(), 1);
    t.insert("b".to_string(), 2);
    let mut values = t.drain();
    values.sort();
    assert_eq!(values, [1, 2]);
    assert_eq!(t.len(), 0);
    assert!(t.drain().is_empty());
}

#[test]
fn a_clone_has_the_same_entries() {
    let mut t: Table<u32> = Table::new();
    t.insert("a".to_string(), 1);
    t.insert("b".to_string(), 2);
    let mut c = t.clone();
    assert_eq!(t.remove("a"), Some(1));
    assert_eq!(c.len(), 2);
    assert_eq!(c.remove("a"), Some(1));
    assert_eq!(c.remove("b"), Some(2));
}
