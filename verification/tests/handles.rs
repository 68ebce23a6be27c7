use morrow::handles::{Handle, HandleCounter, HandleTable};

#[test]
fn test_handle_zero_is_invalid() {
    assert!(Handle::from_u64(0).is_none());
}

#[test]
fn test_handle_nonzero_is_valid() {
    let h = Handle::from_u64(42).unwrap();
    assert_eq!(h.as_u64(), 42);
}

#[test]
fn test_handle_new_is_unique() {
    let mut counter = HandleCounter::new();
    let a = Handle::new(&mut counter);
    let b = Handle::new(&mut counter);
    assert_ne!(a.as_u64(), b.as_u64());
}

#[test]
fn test_table_insert_remove() {
    let mut table = HandleTable::new();
    let mut ids = HandleCounter::new();
    let h = table.insert(&mut ids, "hello".to_string());
    assert_eq!(table.len(), 1);
    assert_eq!(table.get(h).map(|a| a.as_ref().clone()), Some("hello".to_string()));

    let removed = table.remove(h);
    assert_eq!(removed.map(|a| a.as_ref().clone()), Some("hello".to_string()));
    assert_eq!(table.len(), 0);
    assert!(table.get(h).is_none());
}

#[test]
fn test_with_runs_outside_lock() {
    let mut table = HandleTable::new();
    let mut ids = HandleCounter::new();
    let h = table.insert(&mut ids, 42u64);
    let result = table.with(h, |_v| table.len());
    assert_eq!(result, Some(1));
}

#[test]
fn test_table_leak_detection() {
    let mut table = HandleTable::<String>::new();
    let mut ids = HandleCounter::new();
    for _ in 0..10 {
        let h = table.insert(&mut ids, "test".into());
        table.remove(h);
    }
    assert_eq!(table.len(), 0);
}

#[test]
fn handle_validity_and_round_trip() {
    let h = Handle::from_u64(7).unwrap();
    assert!(h.is_valid());
    assert_eq!(Handle::from_u64(h.as_u64()), Some(h));
}

#[test]
fn handles_start_at_one_and_increase() {
    let mut counter = HandleCounter::new();
    assert_eq!(Handle::new(&mut counter).as_u64(), 1);
    assert_eq!(Handle::new(&mut counter).as_u64(), 2);
    assert_eq!(Handle::new(&mut counter).as_u64(), 3);
}

#[test]
fn table_never_reuses_a_freed_handle() {
    let mut table = HandleTable::new();
    let mut ids = HandleCounter::new();
    let a = table.insert(&mut ids, 1u32);
    table.remove(a);
    let b = table.insert(&mut ids, 2u32);
    assert_ne!(a, b);
    assert!(table.get(a).is_none());
    assert_eq!(table.get(b).map(|v| *v), Some(2));
}

#[test]
fn remove_of_unknown_handle_changes_nothing() {
    let mut table = HandleTable::new();
    let mut ids = HandleCounter::new();
    let a = table.insert(&mut ids, 5u8);
    assert!(table.remove(Handle::from_u64(99).unwrap()).is_none());
    assert_eq!(table.len(), 1);
    assert_eq!(table.with(a, |v| *v + 1), Some(6));
    assert_eq!(table.with(Handle::from_u64(99).unwrap(), |v| *v), None);
}

#[test]
fn with_first_and_fold_see_live_entries() {
    let mut table = HandleTable::new();
    let mut ids = HandleCounter::new();
    assert_eq!(table.with_first(|v: &u64| *v), None);
    assert!(table.is_empty());
    table.insert(&mut ids, 3u64);
    table.insert(&mut ids, 4u64);
    let first = table.with_first(|v| *v).unwrap();
    assert!(first == 3 || first == 4);
    assert_eq!(table.fold(0u64, |acc, v| acc + *v), 7);
    assert!(!table.is_empty());
}

#[test]
fn handles_are_unique_across_tables() {
    let mut ids = HandleCounter::new();
    let mut first: HandleTable<u8> = HandleTable::new();
    let mut second: HandleTable<u8> = HandleTable::new();
    let a = first.insert(&mut ids, 1);
    assert!(second.can_insert(&ids));
    let b = second.insert(&mut ids, 2);
    let c = first.insert(&mut ids, 3);
    assert_eq!((a.as_u64(), b.as_u64(), c.as_u64()), (1, 2, 3));
    assert!(first.get(b).is_none());
    assert!(second.get(a).is_none());
    // A table that is past a counter refuses it.
    let stale = HandleCounter::new();
    assert!(!first.can_insert(&stale));
}
