use wowser::js::api::storage::storage_file::{load_storage, storage_bytes};
use wowser::js::api::storage::{InMemoryStorage, Storage, StorageError};

fn new_storage() -> Box<dyn Storage> {
    Box::<InMemoryStorage>::default()
}

#[test]
fn storage_starts_empty() {
    let storage = new_storage();
    assert_eq!(storage.length(), 0);
    assert_eq!(storage.key(0), None);
    assert_eq!(storage.get_item(""), None);
}

#[test]
fn storage_crud() {
    let mut storage = new_storage();
    storage.set_item("abc", "def");
    storage.set_item("123", "456");
    assert_eq!(storage.length(), 2);

    assert!(["abc", "123"].contains(&storage.key(0).unwrap()));
    assert!(["abc", "123"].contains(&storage.key(1).unwrap()));
    assert_ne!(storage.key(0), storage.key(1));
    assert_eq!(storage.key(2), None);
    assert_eq!(storage.length(), 2);
    assert_eq!(storage.get_item("123"), Some("456"));
    storage.remove_item("123");
    assert_eq!(storage.get_item("123"), None);
    assert_eq!(storage.length(), 1);
    storage.clear();
    assert_eq!(storage.get_item("abc"), None);
    assert_eq!(storage.length(), 0);
}

#[test]
fn storage_replace() {
    let mut storage = new_storage();
    storage.set_item("abc", "123");
    storage.set_item("abc", "456");
    assert_eq!(storage.get_item("abc"), Some("456"));
}

#[test]
fn saved_storage_loads_back() {
    let mut storage = InMemoryStorage::new();
    storage.set_item("abc", "123");
    storage.set_item("def", "456");
    storage.set_item("abc", "789");
    let bytes = storage_bytes(&storage);
    assert_eq!(&bytes[0..8], &3u64.to_be_bytes());
    assert_eq!(&bytes[8..11], b"abc");
    let mut loaded = InMemoryStorage::new();
    load_storage(&bytes, &mut loaded).unwrap();
    assert_eq!(loaded.length(), 2);
    assert_eq!(loaded.get_item("abc"), Some("789"));
    assert_eq!(loaded.get_item("def"), Some("456"));
}

#[test]
fn damaged_storage_files_are_refused() {
    let mut storage = InMemoryStorage::new();
    storage.set_item("abc", "123");
    let bytes = storage_bytes(&storage);
    let mut loaded = InMemoryStorage::new();
    assert!(matches!(load_storage(&bytes[..bytes.len() - 1], &mut loaded), Err(StorageError::IoError(_))));
    let mut bad = bytes.clone();
    bad[8] = 0xff;
    let mut loaded = InMemoryStorage::new();
    assert!(matches!(load_storage(&bad, &mut loaded), Err(StorageError::Utf8Error(_))));
}

/// The bytes of a storage file, saved and loaded again as a file-backed storage does.
#[test]
fn test_serialization() -> Result<(), StorageError> {
    let mut file: Vec<u8> = Vec::new();
    {
        let mut storage = InMemoryStorage::new();
        load_storage(&file, &mut storage)?;
        file = storage_bytes(&storage);
    }
    assert_eq!(0, file.len());

    {
        let mut storage = InMemoryStorage::new();
        load_storage(&file, &mut storage)?;
        assert_eq!(0, storage.length());
        storage.set_item("abc", "123");
        storage.set_item("def", "456");
        storage.set_item("abc", "789");
        file = storage_bytes(&storage);
    }
    assert!(file.len() > 10);

    {
        let mut storage = InMemoryStorage::new();
        load_storage(&file, &mut storage)?;
        assert_eq!(2, storage.length());
        assert_eq!(Some("789"), storage.get_item("abc"));
        assert_eq!(Some("456"), storage.get_item("def"));
    }

    Ok(())
}

#[test]
fn damaged_storage_files_give_std_messages() {
    let mut storage = InMemoryStorage::new();
    storage.set_item("abc", "123");
    let bytes = storage_bytes(&storage);
    let mut loaded = InMemoryStorage::new();
    match load_storage(&bytes[..bytes.len() - 1], &mut loaded) {
        Err(StorageError::IoError(m)) => assert_eq!("failed to fill whole buffer", m),
        other => panic!("unexpected {:?}", other),
    }
    let mut bad = bytes.clone();
    bad[8] = 0xff;
    let mut loaded = InMemoryStorage::new();
    let expected = std::str::from_utf8(&[0xff, b'b', b'c']).unwrap_err().to_string();
    match load_storage(&bad, &mut loaded) {
        Err(StorageError::Utf8Error(m)) => assert_eq!(expected, m),
        other => panic!("unexpected {:?}", other),
    }
}
