//! The web APIs that scripts reach.
pub mod index_db;
pub mod storage;
