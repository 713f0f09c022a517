use vstd::prelude::*;

use crate::error::Error;

verus! {

/// The transaction-scoped handle of one sled tree, as sled's `transaction`
/// closure hands it out. Opaque to verification: every access goes through
/// the two wrappers below, and each wrapper's caller states what holds of
/// every possible outcome.
#[verifier::external_type_specification]
#[verifier::external_body]
pub struct ExTransactionalTree(sled::transaction::TransactionalTree);

/// Relies on sled's `TransactionalTree::get`: returns the value stored under
/// `key` as this transaction sees it — its own staged writes first, then the
/// latest committed state — or nothing when the key is absent. What comes
/// back depends on the store's state, so nothing is promised of the bytes;
/// a failure of the store surfaces as [`Error::StoreError`].
#[verifier::external_body]
pub fn tree_get(tree: &sled::transaction::TransactionalTree, key: &Vec<u8>) -> (r: Result<
    Option<Vec<u8>>,
    Error,
>)
    ensures
        r matches Err(e) ==> e == Error::StoreError,
{
    match tree.get(key.as_slice()) {
        Ok(Some(v)) => Ok(Some(v.to_vec())),
        Ok(None) => Ok(None),
        Err(_) => Err(Error::StoreError),
    }
}

/// Relies on sled's `TransactionalTree::insert`: stages a write of `value`
/// under `key` inside this transaction, invisible to others until commit.
/// Whether it succeeds depends on the store, so nothing is promised of the
/// outcome beyond the error mapping to [`Error::StoreError`].
#[verifier::external_body]
pub fn tree_insert(tree: &sled::transaction::TransactionalTree, key: &Vec<u8>, value: Vec<u8>) -> (r:
    Result<(), Error>)
    ensures
        r matches Err(e) ==> e == Error::StoreError,
{
    match tree.insert(key.as_slice(), value) {
        Ok(_) => Ok(()),
        Err(_) => Err(Error::StoreError),
    }
}

} // verus!
