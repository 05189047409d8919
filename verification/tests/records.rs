use drawing_store::{DrawingStore, Medium, StoreError};

#[test]
fn new_store_is_empty_and_ready() {
    let store = DrawingStore::new();
    assert_eq!(store.len(), 0);
    assert!(store.is_empty());
    assert_eq!(store.medium(), Medium::Ready);
    assert_eq!(store.next_id(), 1);
    assert!(store.get(0).is_none());
}

#[test]
fn insert_hands_out_ids_from_one_upwards() {
    let mut store = DrawingStore::new();
    assert_eq!(store.insert("s".to_string(), vec![7, 8], 100), Ok(1));
    assert_eq!(store.insert("t".to_string(), vec![], 101), Ok(2));
    assert_eq!(store.next_id(), 3);
    assert_eq!(store.len(), 2);
    let first = store.get(0).unwrap();
    assert_eq!(first.id(), 1);
    assert_eq!(first.source_id(), "s");
    assert_eq!(first.payload(), &vec![7u8, 8u8]);
    assert_eq!(first.created_at(), 100);
    assert_eq!(first.updated_at(), 100);
    let second = store.get(1).unwrap();
    assert_eq!(second.id(), 2);
    assert_eq!(second.source_id(), "t");
    assert!(store.get(2).is_none());
}

#[test]
fn ids_are_not_reused_after_a_delete() {
    let mut store = DrawingStore::new();
    store.insert("s".to_string(), vec![], 1).unwrap();
    store.insert("s".to_string(), vec![], 2).unwrap();
    assert_eq!(store.delete_by_source("s"), Ok(()));
    assert_eq!(store.insert("s".to_string(), vec![], 3), Ok(3));
    assert_eq!(store.get(0).unwrap().id(), 3);
}

#[test]
fn insert_fails_on_a_fault_and_adds_nothing() {
    let mut store = DrawingStore::new();
    store.set_medium(Medium::Unreachable);
    assert_eq!(
        store.insert("s".to_string(), vec![1], 1),
        Err(StoreError::Unavailable)
    );
    store.set_medium(Medium::Malformed);
    assert_eq!(
        store.insert("s".to_string(), vec![1], 1),
        Err(StoreError::Corrupt)
    );
    assert!(store.is_empty());
    assert_eq!(store.next_id(), 1);
    store.set_medium(Medium::Ready);
    assert_eq!(store.insert("s".to_string(), vec![1], 1), Ok(1));
}

#[test]
fn update_rewrites_the_payload_of_one_record() {
    let mut store = DrawingStore::new();
    store.insert("s".to_string(), vec![1], 10).unwrap();
    store.insert("s".to_string(), vec![2], 11).unwrap();
    store.insert("t".to_string(), vec![3], 12).unwrap();
    assert_eq!(store.update(2, vec![9, 9], 50), Ok(true));
    let changed = store.get(1).unwrap();
    assert_eq!(changed.id(), 2);
    assert_eq!(changed.source_id(), "s");
    assert_eq!(changed.payload(), &vec![9u8, 9u8]);
    assert_eq!(changed.created_at(), 11);
    assert_eq!(changed.updated_at(), 50);
    let untouched = store.get(0).unwrap();
    assert_eq!(untouched.payload(), &vec![1u8]);
    assert_eq!(untouched.updated_at(), 10);
    let other = store.get(2).unwrap();
    assert_eq!(other.payload(), &vec![3u8]);
    assert_eq!(other.updated_at(), 12);
    assert_eq!(store.len(), 3);
}

#[test]
fn update_of_an_unknown_id_changes_nothing() {
    let mut store = DrawingStore::new();
    store.insert("s".to_string(), vec![1], 10).unwrap();
    assert_eq!(store.update(2, vec![5], 20), Ok(false));
    assert_eq!(store.update(0, vec![5], 20), Ok(false));
    let record = store.get(0).unwrap();
    assert_eq!(record.payload(), &vec![1u8]);
    assert_eq!(record.updated_at(), 10);
}

#[test]
fn update_fails_on_a_fault_and_changes_nothing() {
    let mut store = DrawingStore::new();
    store.insert("s".to_string(), vec![1], 10).unwrap();
    store.set_medium(Medium::Malformed);
    assert_eq!(store.update(1, vec![5], 20), Err(StoreError::Corrupt));
    store.set_medium(Medium::Unreachable);
    assert_eq!(store.update(1, vec![5], 20), Err(StoreError::Unavailable));
    assert_eq!(store.update(7, vec![5], 20), Err(StoreError::Unavailable));
    let record = store.get(0).unwrap();
    assert_eq!(record.payload(), &vec![1u8]);
    assert_eq!(record.updated_at(), 10);
}

#[test]
fn set_medium_keeps_the_records() {
    let mut store = DrawingStore::new();
    store.insert("s".to_string(), vec![1], 10).unwrap();
    store.set_medium(Medium::Malformed);
    assert_eq!(store.medium(), Medium::Malformed);
    assert_eq!(store.len(), 1);
    assert_eq!(store.next_id(), 2);
    assert_eq!(store.get(0).unwrap().id(), 1);
}

#[test]
fn delete_removes_the_one_record_with_that_id() {
    let mut store = DrawingStore::new();
    store.insert("s".to_string(), vec![1], 10).unwrap();
    store.insert("s".to_string(), vec![2], 11).unwrap();
    store.insert("t".to_string(), vec![3], 12).unwrap();
    assert_eq!(store.delete(2), Ok(true));
    assert_eq!(store.len(), 2);
    assert_eq!(store.get(0).unwrap().id(), 1);
    assert_eq!(store.get(1).unwrap().id(), 3);
    assert_eq!(store.get(1).unwrap().source_id(), "t");
    assert_eq!(store.delete(2), Ok(false));
    assert_eq!(store.len(), 2);
    assert_eq!(store.next_id(), 4);
}

#[test]
fn delete_of_an_unknown_id_changes_nothing() {
    let mut store = DrawingStore::new();
    assert_eq!(store.delete(1), Ok(false));
    store.insert("s".to_string(), vec![1], 10).unwrap();
    assert_eq!(store.delete(0), Ok(false));
    assert_eq!(store.delete(2), Ok(false));
    assert_eq!(store.len(), 1);
    assert_eq!(store.get(0).unwrap().id(), 1);
}

#[test]
fn delete_fails_on_a_fault_and_removes_nothing() {
    let mut store = DrawingStore::new();
    store.insert("s".to_string(), vec![1], 10).unwrap();
    store.set_medium(Medium::Unreachable);
    assert_eq!(store.delete(1), Err(StoreError::Unavailable));
    store.set_medium(Medium::Malformed);
    assert_eq!(store.delete(1), Err(StoreError::Corrupt));
    assert_eq!(store.delete(9), Err(StoreError::Corrupt));
    assert_eq!(store.len(), 1);
}

#[test]
fn count_by_source_counts_the_records_of_one_source() {
    let mut store = DrawingStore::new();
    assert_eq!(store.count_by_source("s"), 0);
    store.insert("s".to_string(), vec![], 1).unwrap();
    store.insert("t".to_string(), vec![], 2).unwrap();
    store.insert("s".to_string(), vec![], 3).unwrap();
    assert_eq!(store.count_by_source("s"), 2);
    assert_eq!(store.count_by_source("t"), 1);
    assert_eq!(store.count_by_source("u"), 0);
    assert_eq!(store.count_by_source(""), 0);
    store.set_medium(Medium::Unreachable);
    assert_eq!(store.count_by_source("s"), 2);
}

#[test]
fn medium_check_names_the_error_of_each_fault() {
    assert_eq!(Medium::Ready.check(), Ok(()));
    assert_eq!(Medium::Unreachable.check(), Err(StoreError::Unavailable));
    assert_eq!(Medium::Malformed.check(), Err(StoreError::Corrupt));
}
