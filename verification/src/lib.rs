//! A multi-table embedded key-value storage layer with verified semantics.
//!
//! The store is modelled as a map from table names (byte strings) to
//! independent key/value tables. A trait captures the storage capability;
//! an in-memory backend implements it with verified code, and an embedded
//! on-disk backend implements it through a transactional engine.

pub mod bytes;
pub mod community;
pub mod laws;
pub mod mem_db;
pub mod profile;
pub mod records;
pub mod storage;
