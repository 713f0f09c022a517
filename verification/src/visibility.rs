use vstd::prelude::*;

use crate::posting::{delete_posting_spec, delete_target, insert_posting_spec};
use crate::snapshot::{not_deleted_for, visible_to, Rec};

verus! {

/// How many records of the list are visible to a reader at `reader` and
/// carry the data key `dk`.
pub open spec fn visible_count(l: Seq<Rec>, reader: u64, dk: Seq<u8>) -> nat
    decreases l.len(),
{
    if l.len() == 0 {
        0
    } else {
        visible_count(l.drop_last(), reader, dk) + if visible_to(l.last(), reader) && l.last().data
            == dk {
            1nat
        } else {
            0nat
        }
    }
}

/// A list whose `dk`-records are all tombstoned at or before `t` shows no
/// `dk`-posting to any reader at `t` or later.
pub proof fn lemma_visible_count_zero(l: Seq<Rec>, t: u64, dk: Seq<u8>, reader: u64)
    requires
        reader >= t,
        forall|i: int|
            0 <= i < l.len() && (#[trigger] l[i]).data == dk ==> (l[i].deleted_by matches Some(d)
                && d <= t),
    ensures
        visible_count(l, reader, dk) == 0,
    decreases l.len(),
{
    if l.len() > 0 {
        assert(forall|i: int|
            0 <= i < l.drop_last().len() ==> #[trigger] l.drop_last()[i] == l[i]);
        lemma_visible_count_zero(l.drop_last(), t, dk, reader);
        assert(l.last() == l[l.len() - 1]);
    }
}

/// Two lists whose records agree, position by position, on whether they are
/// a visible `dk`-posting show the same count.
pub proof fn lemma_visible_count_pointwise(l1: Seq<Rec>, l2: Seq<Rec>, reader: u64, dk: Seq<u8>)
    requires
        l1.len() == l2.len(),
        forall|i: int|
            0 <= i < l1.len() ==> ((visible_to(#[trigger] l1[i], reader) && l1[i].data == dk) == (
            visible_to(#[trigger] l2[i], reader) && l2[i].data == dk)),
    ensures
        visible_count(l1, reader, dk) == visible_count(l2, reader, dk),
    decreases l1.len(),
{
    if l1.len() > 0 {
        assert(forall|i: int|
            0 <= i < l1.drop_last().len() ==> #[trigger] l1.drop_last()[i] == l1[i]);
        assert(forall|i: int|
            0 <= i < l2.drop_last().len() ==> #[trigger] l2.drop_last()[i] == l2[i]);
        lemma_visible_count_pointwise(l1.drop_last(), l2.drop_last(), reader, dk);
        assert(l1.last() == l1[l1.len() - 1]);
        assert(l2.last() == l2[l2.len() - 1]);
    }
}

/// What appending one posting does to the count: one more visible
/// `dk`-posting exactly when the fresh record carries `dk` and its creator is
/// at or before the reader.
pub proof fn lemma_visible_count_insert(
    l: Seq<Rec>,
    txid: u64,
    dk: Seq<u8>,
    reader: u64,
    dk2: Seq<u8>,
)
    ensures
        visible_count(insert_posting_spec(l, txid, dk), reader, dk2) == visible_count(
            l,
            reader,
            dk2,
        ) + if txid <= reader && dk == dk2 {
            1nat
        } else {
            0nat
        },
{
    let after = insert_posting_spec(l, txid, dk);
    assert(after.drop_last() =~= l);
    assert(after.last() == Rec { created_by: txid, deleted_by: None, data: dk });
}

/// Self-consistency: inserting and then deleting the same row inside one
/// transaction leaves no posting for that row's data key visible to any
/// reader at that or any later transaction.
pub proof fn lemma_insert_then_delete_invisible(l: Seq<Rec>, txid: u64, dk: Seq<u8>, reader: u64)
    requires
        reader >= txid,
    ensures
        visible_count(
            delete_posting_spec(insert_posting_spec(l, txid, dk), txid, dk),
            reader,
            dk,
        ) == 0,
{
    let mid = insert_posting_spec(l, txid, dk);
    let after = delete_posting_spec(mid, txid, dk);
    assert forall|i: int|
        0 <= i < after.len() && (#[trigger] after[i]).data == dk implies (after[i].deleted_by
        matches Some(d) && d <= txid) by {
        if delete_target(mid[i], txid, dk) {
            assert(after[i].deleted_by == Some(txid));
        } else {
            assert(after[i] == mid[i]);
            assert(!not_deleted_for(mid[i], txid));
        }
    }
    lemma_visible_count_zero(after, txid, dk, reader);
}

/// Update stability under an unchanged key: tombstone-then-create at the
/// same index key leaves exactly one visible posting for the data key — not
/// zero and not two — for the writer itself and every later reader.
pub proof fn lemma_update_same_key_one_visible(l: Seq<Rec>, txid: u64, dk: Seq<u8>, reader: u64)
    requires
        reader >= txid,
    ensures
        visible_count(
            insert_posting_spec(delete_posting_spec(l, txid, dk), txid, dk),
            reader,
            dk,
        ) == 1,
{
    let deleted = delete_posting_spec(l, txid, dk);
    assert forall|i: int|
        0 <= i < deleted.len() && (#[trigger] deleted[i]).data == dk implies (deleted[i].deleted_by
        matches Some(d) && d <= txid) by {
        if delete_target(l[i], txid, dk) {
            assert(deleted[i].deleted_by == Some(txid));
        } else {
            assert(deleted[i] == l[i]);
            assert(!not_deleted_for(l[i], txid));
        }
    }
    lemma_visible_count_zero(deleted, txid, dk, reader);
    let after = insert_posting_spec(deleted, txid, dk);
    assert(after.drop_last() =~= deleted);
    assert(after.last() == Rec { created_by: txid, deleted_by: None, data: dk });
}

/// One posting-level write of the maintenance protocol against a single
/// index key: what `insert` stages, or what `delete` stages, for one row.
pub ghost enum PostingOp {
    Insert { txid: u64, data_key: Seq<u8> },
    Delete { txid: u64, data_key: Seq<u8> },
}

pub open spec fn op_txid(op: PostingOp) -> u64 {
    match op {
        PostingOp::Insert { txid, .. } => txid,
        PostingOp::Delete { txid, .. } => txid,
    }
}

pub open spec fn op_data_key(op: PostingOp) -> Seq<u8> {
    match op {
        PostingOp::Insert { data_key, .. } => data_key,
        PostingOp::Delete { data_key, .. } => data_key,
    }
}

pub open spec fn apply_op(l: Seq<Rec>, op: PostingOp) -> Seq<Rec> {
    match op {
        PostingOp::Insert { txid, data_key } => insert_posting_spec(l, txid, data_key),
        PostingOp::Delete { txid, data_key } => delete_posting_spec(l, txid, data_key),
    }
}

pub open spec fn apply_ops(l: Seq<Rec>, ops: Seq<PostingOp>) -> Seq<Rec>
    decreases ops.len(),
{
    if ops.len() == 0 {
        l
    } else {
        apply_op(apply_ops(l, ops.drop_last()), ops.last())
    }
}

/// Whether, after `ops`, the row behind `dk` ought to be visible at
/// `reader`: its last operation issued at or before `reader` exists and is
/// an insert.
pub open spec fn expected_live(ops: Seq<PostingOp>, reader: u64, dk: Seq<u8>) -> bool
    decreases ops.len(),
{
    if ops.len() == 0 {
        false
    } else {
        let last = ops.last();
        if op_data_key(last) == dk && op_txid(last) <= reader {
            last is Insert
        } else {
            expected_live(ops.drop_last(), reader, dk)
        }
    }
}

/// The caller protocol of the maintenance layer: transaction ids strictly
/// increase across operations, a row is inserted only while absent and
/// deleted only while present.
pub open spec fn wf_ops(ops: Seq<PostingOp>) -> bool
    decreases ops.len(),
{
    if ops.len() == 0 {
        true
    } else {
        let pre = ops.drop_last();
        let last = ops.last();
        &&& wf_ops(pre)
        &&& forall|i: int| 0 <= i < pre.len() ==> op_txid(#[trigger] pre[i]) < op_txid(last)
        &&& (last is Insert ==> !expected_live(pre, op_txid(last), op_data_key(last)))
        &&& (last is Delete ==> expected_live(pre, op_txid(last), op_data_key(last)))
    }
}

/// Two readers at or above every transaction of `ops` expect the same rows.
pub proof fn lemma_expected_live_same(ops: Seq<PostingOp>, r1: u64, r2: u64, dk: Seq<u8>)
    requires
        forall|i: int|
            0 <= i < ops.len() ==> op_txid(#[trigger] ops[i]) <= r1 && op_txid(ops[i]) <= r2,
    ensures
        expected_live(ops, r1, dk) == expected_live(ops, r2, dk),
    decreases ops.len(),
{
    if ops.len() > 0 {
        assert(forall|i: int|
            0 <= i < ops.drop_last().len() ==> #[trigger] ops.drop_last()[i] == ops[i]);
        lemma_expected_live_same(ops.drop_last(), r1, r2, dk);
        assert(ops.last() == ops[ops.len() - 1]);
    }
}

/// Visibility correctness: after any protocol-respecting sequence of posting
/// operations against one index key, starting from an empty posting list, a
/// reader at `reader` sees the data key exactly once if the key's last
/// operation at or before `reader` was an insert, and not at all otherwise.
pub proof fn lemma_visibility_correct(ops: Seq<PostingOp>, reader: u64, dk: Seq<u8>)
    requires
        wf_ops(ops),
    ensures
        visible_count(apply_ops(Seq::empty(), ops), reader, dk) == if expected_live(
            ops,
            reader,
            dk,
        ) {
            1nat
        } else {
            0nat
        },
    decreases ops.len(),
{
    if ops.len() == 0 {
    } else {
        let pre = ops.drop_last();
        let last = ops.last();
        lemma_visibility_correct(pre, reader, dk);
        let mid = apply_ops(Seq::empty(), pre);
        match last {
            PostingOp::Insert { txid, data_key } => {
                lemma_visible_count_insert(mid, txid, data_key, reader, dk);
                if txid <= reader && data_key == dk {
                    assert(forall|i: int|
                        0 <= i < pre.len() ==> op_txid(#[trigger] pre[i]) <= txid && op_txid(
                            pre[i],
                        ) <= reader);
                    lemma_expected_live_same(pre, txid, reader, dk);
                    assert(!expected_live(pre, reader, dk));
                }
            },
            PostingOp::Delete { txid, data_key } => {
                let after = delete_posting_spec(mid, txid, data_key);
                if txid <= reader && data_key == dk {
                    assert forall|i: int|
                        0 <= i < after.len() && (#[trigger] after[i]).data == dk implies (
                        after[i].deleted_by matches Some(d) && d <= txid) by {
                        if delete_target(mid[i], txid, data_key) {
                            assert(after[i].deleted_by == Some(txid));
                        } else {
                            assert(after[i] == mid[i]);
                            assert(!not_deleted_for(mid[i], txid));
                        }
                    }
                    lemma_visible_count_zero(after, txid, dk, reader);
                } else {
                    assert forall|i: int|
                        0 <= i < mid.len() implies ((visible_to(#[trigger] mid[i], reader)
                            && mid[i].data == dk) == (visible_to(after[i], reader) && after[i].data
                            == dk)) by {
                        if delete_target(mid[i], txid, data_key) {
                            assert(after[i].data == mid[i].data);
                            if txid > reader {
                                assert(not_deleted_for(mid[i], txid));
                                assert(not_deleted_for(mid[i], reader));
                                assert(not_deleted_for(after[i], reader));
                            } else {
                                assert(mid[i].data == data_key);
                                assert(mid[i].data != dk);
                            }
                        } else {
                            assert(after[i] == mid[i]);
                        }
                    }
                    lemma_visible_count_pointwise(mid, after, reader, dk);
                }
            },
        }
    }
}

} // verus!
