use drawing_store::{clear_drawings, DrawingStore, Medium, StoreError};

fn two_sources() -> DrawingStore {
    let mut store = DrawingStore::new();
    store.insert("doc-A".to_string(), vec![1], 1).unwrap();
    store.insert("doc-B".to_string(), vec![2], 2).unwrap();
    store.insert("doc-A".to_string(), vec![3], 3).unwrap();
    store
}

#[test]
fn command_clears_the_source_and_reports_success() {
    let mut store = two_sources();
    assert_eq!(clear_drawings(&mut store, "doc-A".to_string()), Ok(()));
    assert_eq!(store.len(), 1);
    let left = store.get(0).unwrap();
    assert_eq!(left.id(), 2);
    assert_eq!(left.source_id(), "doc-B");
}

#[test]
fn command_succeeds_where_nothing_matches() {
    let mut store = two_sources();
    assert_eq!(clear_drawings(&mut store, "doc-Z".to_string()), Ok(()));
    assert_eq!(store.len(), 3);
}

#[test]
fn command_reports_an_unreachable_medium_in_words() {
    let mut store = two_sources();
    store.set_medium(Medium::Unreachable);
    assert_eq!(
        clear_drawings(&mut store, "doc-A".to_string()),
        Err("drawing store is unavailable".to_string())
    );
    assert_eq!(store.len(), 3);
}

#[test]
fn command_reports_a_malformed_medium_in_words() {
    let mut store = two_sources();
    store.set_medium(Medium::Malformed);
    assert_eq!(
        clear_drawings(&mut store, "doc-A".to_string()),
        Err("drawing store is corrupt".to_string())
    );
    assert_eq!(store.len(), 3);
}

#[test]
fn error_messages_are_fixed_sentences() {
    assert_eq!(
        StoreError::Unavailable.message(),
        "drawing store is unavailable"
    );
    assert_eq!(StoreError::Corrupt.message(), "drawing store is corrupt");
    assert_ne!(StoreError::Unavailable, StoreError::Corrupt);
}
