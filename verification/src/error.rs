use vstd::prelude::*;

verus! {

/// Failure taxonomy of the index-maintenance layer.
///
/// Every variant is transaction-aborting: if any index's maintenance step
/// fails, the whole row mutation (and its enclosing transaction) must be
/// treated as failed, so that primary row storage and the secondary indexes
/// never diverge. Nothing is retried internally.
#[derive(Debug, PartialEq, Eq)]
pub enum Error {
    /// The table's schema is not visible to the running transaction: the
    /// table was dropped concurrently or never existed. Terminal for the
    /// whole transaction, whose view of the catalog is now inconsistent.
    TableNotFoundOnConflict,
    /// The index expression does not evaluate, for this row, to a value with
    /// an order-preserving byte encoding.
    EncodingError,
    /// A posting was to be removed from an index key that stores no posting
    /// list: the index and the row data have diverged.
    IndexDataDeleteSyncConflict,
    /// Stored posting-list or schema bytes are corrupt or of unexpected shape.
    SerializationError,
    /// The underlying transactional store failed or detected a conflict.
    StoreError,
}

impl Clone for Error {
    fn clone(&self) -> (res: Self)
        ensures
            res == self,
    {
        match self {
            Error::TableNotFoundOnConflict => Error::TableNotFoundOnConflict,
            Error::EncodingError => Error::EncodingError,
            Error::IndexDataDeleteSyncConflict => Error::IndexDataDeleteSyncConflict,
            Error::SerializationError => Error::SerializationError,
            Error::StoreError => Error::StoreError,
        }
    }
}

} // verus!
