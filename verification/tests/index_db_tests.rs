use wowser::js::api::index_db::{EventHandlers, IDBDatabase, IDBError, IDBIndex, IDBObjectStore, IDBObjectStoreItem};

#[test]
fn object_stores_and_indices_are_created() {
    let mut database = IDBDatabase::new("db", 1);
    let store = database.create_object_store("store", Some("id"), None).unwrap();
    let index = store.create_index("by_name", "name", Some(true), None).unwrap();
    assert_eq!(index.count(None), 0);
    assert_eq!(index.count(Some("x")), 0);
    assert!(matches!(index.get(None), Ok(None)));
    let item = IDBObjectStoreItem::String("value".to_string());
    assert!(IDBObjectStore::add(&item, None).is_ok());
    let _ = IDBIndex::new("i", "store", None, false, false);
    let _ = IDBError::ConstraintError;
}

#[test]
fn callbacks_are_invoked_in_order() {
    fn add_one(x: &u32) -> u32 {
        *x + 1
    }
    fn double(x: &u32) -> u32 {
        *x * 2
    }
    let mut handlers: EventHandlers<fn(&u32) -> u32, u32, u32> = EventHandlers::new();
    handlers.register_callback(add_one);
    handlers.register_callback(double);
    assert_eq!(handlers.invoke_callback(10), vec![11, 20]);
}
