//! Secondary-index maintenance for an embedded, transactional key-value store.
//!
//! Whenever a row is inserted, updated, or deleted inside an active
//! transaction, this crate keeps every secondary index of the owning table
//! consistent with the row set, under multi-version concurrency control.
//! Index keys are order-preserving byte encodings of the indexed values, so
//! range scans work directly on raw store keys; the postings stored under one
//! index key form an append/tombstone-only list of versioned records, each
//! marked with the transactions that created and deleted it.

pub mod ast_builder;
pub mod bytes;
pub mod error;
pub mod index_sync;
pub mod keys;
pub mod posting;
pub mod schema;
pub mod snapshot;
pub mod store;
pub mod value;
pub mod visibility;
