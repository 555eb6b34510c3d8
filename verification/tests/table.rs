use device_monitor::keys::make_key;
use device_monitor::table::Table;

#[test]
fn new_table_is_empty() {
    let t: Table<u32> = Table::new();
    assert_eq!(t.len(), 0);
    assert_eq!(t.position("a"), None);
    assert!(t.get("a").is_none());
}

#[test]
fn insert_then_get_finds_the_record() {
    let mut t: Table<u32> = Table::new();
    assert_eq!(t.insert("a".to_string(), 1), None);
    assert_eq!(t.insert("b".to_string(), 2), None);
    assert_eq!(t.len(), 2);
    assert_eq!(t.get("a"), Some(&1));
    assert_eq!(t.get("b"), Some(&2));
    assert_eq!(t.get("c"), None);
    assert_eq!(t.position("a"), Some(0));
    assert_eq!(t.position("b"), Some(1));
}

#[test]
fn insert_on_a_known_key_keeps_the_slot_and_returns_the_old_record() {
    let mut t: Table<u32> = Table::new();
    t.insert("a".to_string(), 1);
    t.insert("b".to_string(), 2);
    assert_eq!(t.insert("a".to_string(), 10), Some(1));
    assert_eq!(t.len(), 2);
    assert_eq!(t.position("a"), Some(0));
    assert_eq!(t.get("a"), Some(&10));
    assert_eq!(t.key_at(0).as_str(), "a");
    assert_eq!(*t.value_at(0), 10);
}

#[test]
fn remove_moves_the_last_record_into_the_gap() {
    let mut t: Table<u32> = Table::new();
    t.insert("a".to_string(), 1);
    t.insert("b".to_string(), 2);
    t.insert("c".to_string(), 3);
    assert_eq!(t.remove("a"), Some(1));
    assert_eq!(t.len(), 2);
    assert_eq!(t.get("a"), None);
    assert_eq!(t.position("c"), Some(0));
    assert_eq!(t.position("b"), Some(1));
    assert_eq!(t.get("c"), Some(&3));
    assert_eq!(t.remove("a"), None);
    assert_eq!(t.len(), 2);
}

#[test]
fn remove_at_the_last_slot_moves_nothing() {
    let mut t: Table<u32> = Table::new();
    t.insert("a".to_string(), 1);
    t.insert("b".to_string(), 2);
    let (key, value) = t.remove_at(1);
    assert_eq!(key, "b");
    assert_eq!(value, 2);
    assert_eq!(t.len(), 1);
    assert_eq!(t.position("a"), Some(0));
    assert_eq!(t.position("b"), None);
}

#[test]
fn replace_at_returns_the_old_record() {
    let mut t: Table<u32> = Table::new();
    t.insert("a".to_string(), 1);
    assert_eq!(t.replace_at(0, 7), 1);
    assert_eq!(t.get("a"), Some(&7));
}

#[test]
fn value_at_mut_changes_the_record_in_place() {
    let mut t: Table<u32> = Table::new();
    t.insert("a".to_string(), 1);
    t.insert("b".to_string(), 2);
    *t.value_at_mut(1) = 20;
    assert_eq!(t.get("b"), Some(&20));
    assert_eq!(t.get("a"), Some(&1));
}

#[test]
fn many_inserts_and_removals_keep_the_index_in_step() {
    let mut t: Table<usize> = Table::new();
    for i in 0..200 {
        t.insert(format!("k{}", i), i);
    }
    for i in (0..200).step_by(2) {
        assert_eq!(t.remove(&format!("k{}", i)), Some(i));
    }
    assert_eq!(t.len(), 100);
    for i in 0..200 {
        let found = t.get(&format!("k{}", i)).copied();
        if i % 2 == 0 {
            assert_eq!(found, None);
        } else {
            assert_eq!(found, Some(i));
        }
    }
    for slot in 0..t.len() {
        let key = t.key_at(slot).clone();
        assert_eq!(t.position(&key), Some(slot));
    }
}

#[test]
fn composite_key_joins_with_an_underscore() {
    assert_eq!(make_key("192.168.1.100", "cpu"), "192.168.1.100_cpu");
    assert_eq!(make_key("", ""), "_");
    assert_eq!(make_key("a_b", "c"), "a_b_c");
}
