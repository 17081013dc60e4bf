use uuid::Uuid;
use waffle_format::store::SourceStore;

#[test]
fn store_round_trips_text_and_bytes() {
    let mut store = SourceStore::new();
    let id = Uuid::new_v4().as_u128();
    assert!(!store.contains(id));
    store.insert_text(id, "ISO-10303-21;");
    assert!(store.contains(id));
    assert_eq!(store.text(id).as_deref(), Some("ISO-10303-21;"));
    assert_eq!(store.get(id).map(|b| b.len()), Some(13));
    assert_eq!(store.len(), 1);
    assert!(store.remove(id).is_some());
    assert!(store.is_empty());
}

#[test]
fn insert_replaces_and_ids_lists_each_source_once() {
    let mut store = SourceStore::new();
    store.insert(7, vec![1, 2, 3]);
    store.insert(9, vec![4]);
    store.insert(7, vec![5, 6]);
    assert_eq!(store.len(), 2);
    assert_eq!(store.get(7), Some(&vec![5, 6]));
    let mut ids = store.ids();
    ids.sort();
    assert_eq!(ids, vec![7, 9]);
    assert_eq!(store.remove(9), Some(vec![4]));
    assert_eq!(store.remove(9), None);
    store.clear();
    assert!(store.is_empty());
    assert_eq!(store.ids(), Vec::<u128>::new());
}

#[test]
fn text_of_invalid_utf8_is_lossy() {
    let mut store = SourceStore::new();
    store.insert(1, vec![b'a', 0xff, b'b']);
    assert_eq!(store.text(1).as_deref(), Some("a\u{fffd}b"));
    assert_eq!(store.text(2), None);
    store.insert_text(3, "Würfel");
    assert_eq!(store.text(3).as_deref(), Some("Würfel"));
    assert_eq!(store.get(3).map(|b| b.len()), Some(7));
}
