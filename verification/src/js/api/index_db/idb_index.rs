//! Indices of object stores.
use vstd::prelude::*;

use super::idb_object_store::{opt_str, opt_string, opt_text, IDBObjectStoreItem};
use super::{IDBResult, IndexDbCount};
use vstd::string::StringExecFns;

verus! {

/// An index of an object store over a key path, with its records.
pub struct IDBIndex {
    name: String,
    object_store: String,
    key_path: Option<String>,
    multi_entry: bool,
    unique: bool,
    entries: Vec<IDBObjectStoreItem>,
}

impl IDBIndex {
    /// The name of the index.
    pub closed spec fn name(&self) -> Seq<char> {
        self.name@
    }

    /// The name of the object store that the index belongs to.
    pub closed spec fn object_store(&self) -> Seq<char> {
        self.object_store@
    }

    /// The key path of the index.
    pub closed spec fn key_path(&self) -> Option<Seq<char>> {
        opt_text(self.key_path)
    }

    /// Whether a record with an array key is indexed under each of its elements.
    pub closed spec fn multi_entry(&self) -> bool {
        self.multi_entry
    }

    /// Whether two records may not share a key.
    pub closed spec fn unique(&self) -> bool {
        self.unique
    }

    /// The number of records of the index.
    pub closed spec fn entry_count(&self) -> nat {
        self.entries@.len()
    }

    /// An index with no records.
    pub fn new(
        name: &str,
        object_store: &str,
        key_path: Option<&str>,
        multi_entry: bool,
        unique: bool,
    ) -> (res: Self)
        ensures
            res.name() == name@,
            res.object_store() == object_store@,
            res.key_path() == opt_str(key_path),
            res.multi_entry() == multi_entry,
            res.unique() == unique,
            res.entry_count() == 0,
    {
        IDBIndex {
            name: String::from_str(name),
            object_store: String::from_str(object_store),
            key_path: opt_string(key_path),
            multi_entry,
            unique,
            entries: Vec::new(),
        }
    }

    /// The number of records: all of them without a key, none with one.
    pub fn count(&self, key: Option<&str>) -> (res: IndexDbCount)
        ensures
            res == (if key is None {
                self.entry_count()
            } else {
                0
            }),
    {
        if key.is_none() {
            self.entries.len() as u64
        } else {
            0
        }
    }

    /// The record under a key; the request finds none.
    pub fn get(&self, _key: Option<&str>) -> (res: IDBResult<Option<IDBObjectStoreItem>>)
        ensures
            res matches Ok(None),
    {
        Ok(None)
    }
}

} // verus!
