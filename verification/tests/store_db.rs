use mimic_db::db::{Db, StoreMapping};
use mimic_db::store::Store;
use mimic_db::Error;

#[test]
fn store_insert_get_remove() {
    let mut store = Store::init();
    assert!(store.get(&b"k".to_vec()).is_none());
    assert!(store.keys().is_empty());

    assert!(store.insert(b"k".to_vec(), b"v1".to_vec()).is_none());
    assert_eq!(store.get(&b"k".to_vec()), Some(b"v1".to_vec()));
    assert_eq!(store.keys(), vec![b"k".to_vec()]);

    // Insert overwrites unconditionally and returns the displaced value.
    assert_eq!(
        store.insert(b"k".to_vec(), b"v2".to_vec()),
        Some(b"v1".to_vec())
    );
    assert_eq!(store.get(&b"k".to_vec()), Some(b"v2".to_vec()));
    assert_eq!(store.keys().len(), 1);

    assert_eq!(store.remove(&b"k".to_vec()), Some(b"v2".to_vec()));
    assert!(store.get(&b"k".to_vec()).is_none());
    assert!(store.keys().is_empty());
}

#[test]
fn store_iterates_in_key_order() {
    let mut store = Store::init();
    store.insert(b"bb".to_vec(), b"2".to_vec());
    store.insert(b"a".to_vec(), b"1".to_vec());
    store.insert(b"c".to_vec(), b"3".to_vec());
    store.insert(b"ba".to_vec(), b"4".to_vec());

    let keys = store.keys();
    assert_eq!(
        keys,
        vec![b"a".to_vec(), b"ba".to_vec(), b"bb".to_vec(), b"c".to_vec()]
    );
    let values = store.values();
    assert_eq!(
        values,
        vec![b"1".to_vec(), b"4".to_vec(), b"2".to_vec(), b"3".to_vec()]
    );
}

#[test]
fn store_clear_removes_everything_in_place() {
    let mut store = Store::init();
    store.insert(b"a".to_vec(), b"1".to_vec());
    store.insert(b"b".to_vec(), b"2".to_vec());
    assert_eq!(store.keys().len(), 2);
    store.clear();
    assert!(store.get(&b"a".to_vec()).is_none());
    assert!(store.keys().is_empty());
    // The cleared store stays usable.
    store.insert(b"c".to_vec(), b"3".to_vec());
    assert_eq!(store.keys(), vec![b"c".to_vec()]);
}

#[test]
fn resolution_follows_the_registry() {
    let db = Db::new(
        vec!["data".to_string(), "index".to_string()],
        vec![
            StoreMapping {
                entity_path: "user".to_string(),
                store_path: "index".to_string(),
            },
            StoreMapping {
                entity_path: "order".to_string(),
                store_path: "data".to_string(),
            },
        ],
    );
    assert_eq!(db.resolve_store(&"user".to_string()).unwrap(), 1);
    assert_eq!(db.resolve_store(&"order".to_string()).unwrap(), 0);
    match db.resolve_store(&"ghost".to_string()).unwrap_err() {
        Error::Resolution { path } => assert_eq!(path, "ghost"),
        other => panic!("expected a resolution error, got {:?}", other),
    }
}
