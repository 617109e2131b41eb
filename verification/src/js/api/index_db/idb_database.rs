//! Databases.
use vstd::prelude::*;

use super::idb_object_store::{opt_str, IDBObjectStore};
use super::{IDBResult, IndexDbVersion};
use vstd::string::StringExecFns;

verus! {

/// A database: its name, version and the names of its object stores.
pub struct IDBDatabase {
    name: String,
    version: IndexDbVersion,
    object_store_names: Vec<String>,
}

impl IDBDatabase {
    /// The name of the database.
    pub closed spec fn name(&self) -> Seq<char> {
        self.name@
    }

    /// The version of the database.
    pub closed spec fn version(&self) -> IndexDbVersion {
        self.version
    }

    /// The number of object stores that the database names.
    pub closed spec fn store_count(&self) -> nat {
        self.object_store_names@.len()
    }

    /// A database with no object store.
    pub fn new(name: &str, version: IndexDbVersion) -> (res: Self)
        ensures
            res.name() == name@,
            res.version() == version,
            res.store_count() == 0,
    {
        IDBDatabase { name: String::from_str(name), version, object_store_names: Vec::new() }
    }

    /// A new object store with no index; its keys are generated only when asked to be. The
    /// database itself is left as it is.
    pub fn create_object_store(
        &mut self,
        name: &str,
        key_path: Option<&str>,
        auto_increment: Option<bool>,
    ) -> (res: IDBResult<IDBObjectStore>)
        ensures
            res matches Ok(store) && store.name() == name@ && store.key_path() == opt_str(key_path)
                && store.auto_increment() == (auto_increment == Some(true)) && store.index_count()
                == 0,
            *final(self) == *old(self),
    {
        let auto_increment = match auto_increment {
            Some(a) => a,
            None => false,
        };
        Ok(IDBObjectStore::new(name, key_path, auto_increment))
    }
}

} // verus!
