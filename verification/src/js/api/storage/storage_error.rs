//! The errors of storage.
use vstd::prelude::*;

verus! {

/// What went wrong while loading or saving storage.
#[derive(Debug)]
pub enum StorageError {
    /// Reading or writing the bytes failed, or they ended too early.
    IoError(String),
    /// A key or a value is not UTF-8.
    Utf8Error(String),
}

} // verus!
