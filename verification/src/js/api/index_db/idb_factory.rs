//! The entry point of IndexedDB.
use vstd::prelude::*;

verus! {

/// Opens databases.
pub struct IDBFactory {}

} // verus!
