//! Object stores of a database.
use vstd::prelude::*;

use super::idb_index::IDBIndex;
use super::IDBResult;
use vstd::string::StringExecFns;

verus! {

/// An object store: its name, its key path, whether its keys are generated, and its indices.
pub struct IDBObjectStore {
    name: String,
    key_path: Option<String>,
    auto_increment: bool,
    indices: Vec<IDBIndex>,
}

/// A record of an object store.
pub enum IDBObjectStoreItem {
    String(String),
}

/// The view of an optional text.
pub open spec fn opt_text(s: Option<String>) -> Option<Seq<char>> {
    match s {
        Some(t) => Some(t@),
        None => None,
    }
}

/// The view of an optional borrowed text.
pub open spec fn opt_str(s: Option<&str>) -> Option<Seq<char>> {
    match s {
        Some(t) => Some(t@),
        None => None,
    }
}

/// A copy of an optional borrowed text.
pub fn opt_string(s: Option<&str>) -> (r: Option<String>)
    ensures
        opt_text(r) == opt_str(s),
{
    match s {
        Some(t) => Some(String::from_str(t)),
        None => None,
    }
}

impl IDBObjectStore {
    /// The name of the store.
    pub closed spec fn name(&self) -> Seq<char> {
        self.name@
    }

    /// The key path of the store.
    pub closed spec fn key_path(&self) -> Option<Seq<char>> {
        opt_text(self.key_path)
    }

    /// Whether the store generates its keys.
    pub closed spec fn auto_increment(&self) -> bool {
        self.auto_increment
    }

    /// The number of indices of the store.
    pub closed spec fn index_count(&self) -> nat {
        self.indices@.len()
    }

    /// A store with no index.
    pub fn new(name: &str, key_path: Option<&str>, auto_increment: bool) -> (res: Self)
        ensures
            res.name() == name@,
            res.key_path() == opt_str(key_path),
            res.auto_increment() == auto_increment,
            res.index_count() == 0,
    {
        IDBObjectStore {
            name: String::from_str(name),
            key_path: opt_string(key_path),
            auto_increment,
            indices: Vec::new(),
        }
    }

    /// Adds a record; the request always succeeds and stores nothing.
    pub fn add(_item: &IDBObjectStoreItem, _key: Option<&str>) -> (res: IDBResult<()>)
        ensures
            res == Ok::<(), super::IDBError>(()),
    {
        Ok(())
    }

    /// An index of the store over a key path; an index is unique and multi-entry only when
    /// asked to be.
    pub fn create_index(
        &self,
        index_name: &str,
        key_path: &str,
        unique: Option<bool>,
        multi_entry: Option<bool>,
    ) -> (res: IDBResult<IDBIndex>)
        ensures
            res matches Ok(index) && index.name() == index_name@ && index.object_store() == self.name()
                && index.key_path() == Some(key_path@) && index.multi_entry() == (multi_entry
                == Some(true)) && index.unique() == (unique == Some(true)) && index.entry_count()
                == 0,
    {
        let multi_entry = match multi_entry {
            Some(m) => m,
            None => false,
        };
        let unique = match unique {
            Some(u) => u,
            None => false,
        };
        Ok(IDBIndex::new(index_name, self.name.as_str(), Some(key_path), multi_entry, unique))
    }
}

} // verus!
