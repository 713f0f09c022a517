use vstd::prelude::*;

use crate::bytes::copy_bytes;

verus! {

/// The mathematical shape of one versioned record.
pub ghost struct Rec {
    pub created_by: u64,
    pub deleted_by: Option<u64>,
    pub data: Seq<u8>,
}

/// One MVCC version of a posting: `data` became associated with the enclosing
/// index key at transaction `created_by`, and stopped being associated at
/// transaction `deleted_by`, if that marker is set. Records are never removed
/// by normal operation, only tombstoned.
#[derive(Debug, PartialEq, Eq)]
pub struct Snapshot {
    pub created_by: u64,
    pub deleted_by: Option<u64>,
    pub data: Vec<u8>,
}

impl View for Snapshot {
    type V = Rec;

    open spec fn view(&self) -> Rec {
        Rec { created_by: self.created_by, deleted_by: self.deleted_by, data: self.data@ }
    }
}

impl DeepView for Snapshot {
    type V = Rec;

    open spec fn deep_view(&self) -> Rec {
        self.view()
    }
}

/// Whether the record still counts as associated for a reader at `reader`:
/// either it was never tombstoned, or the tombstone comes from a strictly
/// later transaction.
pub open spec fn not_deleted_for(r: Rec, reader: u64) -> bool {
    match r.deleted_by {
        None => true,
        Some(d) => d > reader,
    }
}

/// Snapshot-read visibility: a reader at transaction `reader` sees a record
/// created at or before `reader` (which includes the reader's own writes)
/// that has not been deleted as of `reader`.
pub open spec fn visible_to(r: Rec, reader: u64) -> bool {
    r.created_by <= reader && not_deleted_for(r, reader)
}

/// What [`Snapshot::extract`] returns: the payload when the record is
/// visible, where `any_creator` waives the creation-side check (the delete
/// path's "no reader restriction").
pub open spec fn extract_spec(r: Rec, reader: u64, any_creator: bool) -> Option<Seq<u8>> {
    if (any_creator || r.created_by <= reader) && not_deleted_for(r, reader) {
        Some(r.data)
    } else {
        None
    }
}

impl Snapshot {
    /// A fresh record: created by `txid`, not deleted, carrying `data`.
    pub fn new(txid: u64, data: Vec<u8>) -> (r: Self)
        ensures
            r@ == (Rec { created_by: txid, deleted_by: None, data: data@ }),
    {
        Snapshot { created_by: txid, deleted_by: None, data }
    }

    /// Returns the payload if the record is visible to a reader at `reader`:
    /// created at or before the reader — a check waived when `any_creator` is
    /// set — and not yet deleted as of the reader.
    pub fn extract(self, reader: u64, any_creator: bool) -> (r: Option<Vec<u8>>)
        ensures
            r matches Some(d) ==> extract_spec(self@, reader, any_creator) == Some(d@),
            r is None ==> extract_spec(self@, reader, any_creator) is None,
    {
        let alive = match self.deleted_by {
            None => true,
            Some(d) => d > reader,
        };
        if alive && (any_creator || self.created_by <= reader) {
            Some(self.data)
        } else {
            None
        }
    }

    /// Like [`Snapshot::extract`], but leaves the record in place and hands
    /// out a copy of the payload.
    pub fn get(&self, reader: u64, any_creator: bool) -> (r: Option<Vec<u8>>)
        ensures
            r matches Some(d) ==> extract_spec(self@, reader, any_creator) == Some(d@),
            r is None ==> extract_spec(self@, reader, any_creator) is None,
    {
        let alive = match self.deleted_by {
            None => true,
            Some(d) => d > reader,
        };
        if alive && (any_creator || self.created_by <= reader) {
            Some(copy_bytes(&self.data))
        } else {
            None
        }
    }

    /// A copy of the record with `deleted_by` set to `txid`. The record is
    /// never physically removed, and an already-set marker is overwritten:
    /// last write wins in this layer.
    pub fn delete(self, txid: u64) -> (r: Self)
        ensures
            r@ == (Rec { created_by: self@.created_by, deleted_by: Some(txid), data: self@.data }),
    {
        Snapshot { created_by: self.created_by, deleted_by: Some(txid), data: self.data }
    }
}

} // verus!
