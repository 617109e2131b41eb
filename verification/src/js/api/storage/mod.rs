//! Key-value storage, as the Web Storage API has it.
pub mod in_memory_storage;
pub mod storage_error;
pub mod storage_file;


pub use in_memory_storage::{InMemoryStorage, Storage};
pub use storage_error::StorageError;
