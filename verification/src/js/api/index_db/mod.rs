//! The IndexedDB API: databases, object stores and indices.
pub mod event_handlers;
pub mod idb_database;
pub mod idb_factory;
pub mod idb_index;
pub mod idb_object_store;

pub use event_handlers::EventHandlers;
pub use idb_database::IDBDatabase;
pub use idb_factory::IDBFactory;
pub use idb_index::IDBIndex;
pub use idb_object_store::{IDBObjectStore, IDBObjectStoreItem};

use vstd::prelude::*;

verus! {

/// The version of a database.
pub type IndexDbVersion = u64;

/// A number of records.
pub type IndexDbCount = u64;

/// The errors of IndexedDB requests.
#[derive(Debug, Clone, Copy, PartialEq, Eq, Structural)]
pub enum IDBError {
    InvalidState,
    TransactionInactiveError,
    ConstraintError,
    InvalidAccessError,
}

/// The result of an IndexedDB request.
pub type IDBResult<T> = Result<T, IDBError>;

/// An IndexedDB implementation.
pub trait IndexDb {}

} // verus!
