use vstd::prelude::*;

use crate::bytes::{be_bytes, be_val, bytes_eq, copy_bytes, copy_bytes_range, lemma_be_bytes_len,
    lemma_be_bytes_val, lemma_be_val_bound, lemma_pow256_64, pow256, read_u64_be, u64_to_be_bytes};
use crate::error::Error;
use crate::snapshot::{not_deleted_for, Rec, Snapshot};

verus! {

/// A record whose payload fits the eight-byte length field of the stored
/// shape. Every record that ever passed through a `Vec<u8>` payload does.
pub open spec fn wf_rec(r: Rec) -> bool {
    r.data.len() < pow256(8)
}

pub open spec fn wf_list(l: Seq<Rec>) -> bool {
    forall|i: int| 0 <= i < l.len() ==> wf_rec(#[trigger] l[i])
}

/// The stored shape of one record: creator (eight bytes big-endian), one flag
/// byte telling whether a tombstone follows, the tombstone's transaction if
/// so, then the payload behind its eight-byte length.
pub open spec fn ser_rec(r: Rec) -> Seq<u8> {
    be_bytes(r.created_by as nat, 8) + (match r.deleted_by {
        None => seq![0u8],
        Some(d) => seq![1u8] + be_bytes(d as nat, 8),
    }) + be_bytes(r.data.len(), 8) + r.data
}

/// The stored shape of a whole posting list: its records, one after another.
/// The empty list is the empty byte string.
pub open spec fn ser_list(l: Seq<Rec>) -> Seq<u8>
    decreases l.len(),
{
    if l.len() == 0 {
        Seq::empty()
    } else {
        ser_rec(l.first()) + ser_list(l.drop_first())
    }
}

/// Reads one record off the front of `b`: the record and how many bytes it
/// occupied, or nothing if `b` does not start with a well-formed record.
pub open spec fn parse_rec(b: Seq<u8>) -> Option<(Rec, nat)> {
    if b.len() < 9 {
        None
    } else {
        let created = be_val(b.subrange(0, 8)) as u64;
        if b[8] == 0 {
            if b.len() < 17 {
                None
            } else {
                let dlen = be_val(b.subrange(9, 17));
                if b.len() < 17 + dlen {
                    None
                } else {
                    Some(
                        (
                            Rec {
                                created_by: created,
                                deleted_by: None,
                                data: b.subrange(17, 17 + dlen as int),
                            },
                            (17 + dlen) as nat,
                        ),
                    )
                }
            }
        } else if b[8] == 1 {
            if b.len() < 25 {
                None
            } else {
                let deleted = be_val(b.subrange(9, 17)) as u64;
                let dlen = be_val(b.subrange(17, 25));
                if b.len() < 25 + dlen {
                    None
                } else {
                    Some(
                        (
                            Rec {
                                created_by: created,
                                deleted_by: Some(deleted),
                                data: b.subrange(25, 25 + dlen as int),
                            },
                            (25 + dlen) as nat,
                        ),
                    )
                }
            }
        } else {
            None
        }
    }
}

/// Reads a whole posting list, or nothing if the bytes are corrupt.
pub open spec fn parse_list(b: Seq<u8>) -> Option<Seq<Rec>>
    decreases b.len(),
{
    if b.len() == 0 {
        Some(Seq::empty())
    } else {
        match parse_rec(b) {
            None => None,
            Some((r, n)) => match parse_list(b.skip(n as int)) {
                None => None,
                Some(rest) => Some(seq![r] + rest),
            },
        }
    }
}

/// Parsing a serialized record off the front of any buffer gives the record
/// back and consumes exactly its bytes.
pub proof fn lemma_parse_ser_rec(r: Rec, tail: Seq<u8>)
    requires
        wf_rec(r),
    ensures
        ser_rec(r).len() >= 17,
        parse_rec(ser_rec(r) + tail) == Some((r, ser_rec(r).len() as nat)),
{
    lemma_pow256_64();
    let s = ser_rec(r);
    let b = s + tail;
    lemma_be_bytes_len(r.created_by as nat, 8);
    lemma_be_bytes_len(r.data.len(), 8);
    lemma_be_bytes_val(r.created_by as nat, 8);
    lemma_be_bytes_val(r.data.len(), 8);
    match r.deleted_by {
        None => {
            assert(s.len() == 17 + r.data.len());
            assert(b.subrange(0, 8) =~= be_bytes(r.created_by as nat, 8));
            assert(b[8] == 0u8);
            assert(b.subrange(9, 17) =~= be_bytes(r.data.len(), 8));
            assert(b.subrange(17, 17 + r.data.len() as int) =~= r.data);
        },
        Some(d) => {
            lemma_be_bytes_len(d as nat, 8);
            lemma_be_bytes_val(d as nat, 8);
            assert(s.len() == 25 + r.data.len());
            assert(b.subrange(0, 8) =~= be_bytes(r.created_by as nat, 8));
            assert(b[8] == 1u8);
            assert(b.subrange(9, 17) =~= be_bytes(d as nat, 8));
            assert(b.subrange(17, 25) =~= be_bytes(r.data.len(), 8));
            assert(b.subrange(25, 25 + r.data.len() as int) =~= r.data);
        },
    }
}

/// Round trip: parsing what was serialized yields the original list. With
/// [`lemma_parse_ser_rec`] this also says the stored shape is unambiguous:
/// no two lists serialize to the same bytes.
pub proof fn lemma_parse_ser_list(l: Seq<Rec>)
    requires
        wf_list(l),
    ensures
        parse_list(ser_list(l)) == Some(l),
    decreases l.len(),
{
    if l.len() == 0 {
        assert(l =~= Seq::<Rec>::empty());
    } else {
        let rest = ser_list(l.drop_first());
        lemma_parse_ser_rec(l.first(), rest);
        let s = ser_rec(l.first());
        assert((s + rest).skip(s.len() as int) =~= rest);
        assert(wf_list(l.drop_first())) by {
            assert(forall|i: int|
                0 <= i < l.drop_first().len() ==> #[trigger] l.drop_first()[i] == l[i + 1]);
        }
        lemma_parse_ser_list(l.drop_first());
        assert(seq![l.first()] + l.drop_first() =~= l);
    }
}

/// Serializing one more record appends its bytes.
pub proof fn lemma_ser_list_push(l: Seq<Rec>, r: Rec)
    ensures
        ser_list(l.push(r)) == ser_list(l) + ser_rec(r),
    decreases l.len(),
{
    if l.len() == 0 {
        let p = l.push(r);
        assert(p.len() == 1);
        assert(p.first() == r);
        assert(p.drop_first() =~= Seq::<Rec>::empty());
        assert(ser_list(p.drop_first()) == Seq::<u8>::empty());
        assert(ser_list(p) == ser_rec(r) + Seq::<u8>::empty());
        assert(ser_rec(r) + Seq::<u8>::empty() =~= ser_rec(r));
        assert(ser_list(l) == Seq::<u8>::empty());
        assert(ser_list(l) + ser_rec(r) =~= ser_rec(r));
    } else {
        assert(l.push(r).first() == l.first());
        assert(l.push(r).drop_first() =~= l.drop_first().push(r));
        lemma_ser_list_push(l.drop_first(), r);
        assert(ser_rec(l.first()) + (ser_list(l.drop_first()) + ser_rec(r)) =~= (ser_rec(l.first())
            + ser_list(l.drop_first())) + ser_rec(r));
    }
}

/// Writes the stored shape of one record onto the end of `out`.
fn write_record(out: &mut Vec<u8>, rec: &Snapshot)
    ensures
        final(out)@ == old(out)@ + ser_rec(rec@),
{
    let mut created = u64_to_be_bytes(rec.created_by);
    out.append(&mut created);
    match rec.deleted_by {
        None => {
            out.push(0u8);
        },
        Some(d) => {
            out.push(1u8);
            let mut deleted = u64_to_be_bytes(d);
            out.append(&mut deleted);
        },
    }
    let mut dlen = u64_to_be_bytes(rec.data.len() as u64);
    out.append(&mut dlen);
    let mut data = copy_bytes(&rec.data);
    out.append(&mut data);
    proof {
        assert(rec.data@.len() < pow256(8)) by {
            lemma_pow256_64();
        }
        assert((rec.data.len() as u64) as nat == rec.data@.len());
        assert(out@ =~= old(out)@ + ser_rec(rec@));
    }
}

/// Serializes a posting list into the byte shape stored under an index key.
pub fn serialize_posting_list(list: &Vec<Snapshot>) -> (r: Vec<u8>)
    ensures
        r@ == ser_list(list.deep_view()),
{
    let ghost dv = list.deep_view();
    let mut out: Vec<u8> = Vec::new();
    let n = list.len();
    let mut i: usize = 0;
    while i < n
        invariant
            i <= n,
            n == list@.len(),
            dv == list.deep_view(),
            out@ == ser_list(dv.take(i as int)),
        decreases n - i,
    {
        proof {
            lemma_ser_list_push(dv.take(i as int), dv[i as int]);
            assert(dv.take(i as int + 1) =~= dv.take(i as int).push(dv[i as int]));
        }
        write_record(&mut out, &list[i]);
        i = i + 1;
    }
    proof {
        assert(dv.take(n as int) =~= dv);
    }
    out
}

/// Reads a posting list back from its stored bytes. Succeeds exactly on the
/// byte strings the stored shape admits; anything else is
/// [`Error::SerializationError`].
pub fn deserialize_posting_list(b: &Vec<u8>) -> (r: Result<Vec<Snapshot>, Error>)
    ensures
        r matches Ok(l) ==> parse_list(b@) == Some(l.deep_view()),
        r matches Err(e) ==> parse_list(b@) is None && e == Error::SerializationError,
{
    let n = b.len();
    let mut out: Vec<Snapshot> = Vec::new();
    let mut i: usize = 0;
    proof {
        assert(b@.skip(0) =~= b@);
        assert(out.deep_view() =~= Seq::<Rec>::empty());
        match parse_list(b@) {
            Some(rest) => {
                assert(out.deep_view() + rest =~= rest);
            },
            None => {},
        }
    }
    while i < n
        invariant
            i <= n,
            n == b@.len(),
            parse_list(b@.skip(i as int)) matches Some(rest) ==> parse_list(b@) == Some(
                out.deep_view() + rest,
            ),
            parse_list(b@.skip(i as int)) is None ==> parse_list(b@) is None,
        decreases n - i,
    {
        let ghost pre = b@.skip(i as int);
        proof {
            assert(pre.len() == n - i);
            assert(forall|j: int| 0 <= j < pre.len() ==> pre[j] == b@[i + j]);
        }
        if n - i < 9 {
            proof {
                assert(parse_rec(pre) is None);
                assert(parse_list(pre) is None);
            }
            return Err(Error::SerializationError);
        }
        let created = read_u64_be(b, i);
        proof {
            assert(b@.subrange(i as int, i as int + 8) =~= pre.subrange(0, 8));
            lemma_be_val_bound(pre.subrange(0, 8));
            lemma_pow256_64();
        }
        let flag = b[i + 8];
        if flag == 0 {
            if n - i < 17 {
                proof {
                    assert(parse_rec(pre) is None);
                    assert(parse_list(pre) is None);
                }
                return Err(Error::SerializationError);
            }
            let dlen64 = read_u64_be(b, i + 9);
            proof {
                assert(b@.subrange(i as int + 9, i as int + 17) =~= pre.subrange(9, 17));
            }
            let avail: usize = n - i - 17;
            if dlen64 > avail as u64 {
                proof {
                    assert(pre.len() < 17 + be_val(pre.subrange(9, 17)));
                    assert(parse_rec(pre) is None);
                    assert(parse_list(pre) is None);
                }
                return Err(Error::SerializationError);
            }
            let dlen: usize = dlen64 as usize;
            let data = copy_bytes_range(b, i + 17, i + 17 + dlen);
            let rec = Snapshot { created_by: created, deleted_by: None, data };
            let ghost consumed = 17 + dlen as int;
            proof {
                assert(pre.subrange(17, 17 + dlen as int) =~= b@.subrange(
                    i as int + 17,
                    i as int + 17 + dlen as int,
                ));
                assert(parse_rec(pre) == Some((rec@, (17 + dlen as nat) as nat)));
                assert(pre.skip(consumed) =~= b@.skip(i as int + consumed));
                let ghost old_dv = out.deep_view();
                match parse_list(b@.skip(i as int + consumed)) {
                    Some(rest2) => {
                        assert(parse_list(pre) == Some(seq![rec@] + rest2));
                        assert(old_dv + (seq![rec@] + rest2) =~= (old_dv.push(rec@)) + rest2);
                    },
                    None => {},
                }
            }
            let ghost old_dv = out.deep_view();
            out.push(rec);
            proof {
                assert(out.deep_view() =~= old_dv.push(rec@));
            }
            i = i + 17 + dlen;
        } else if flag == 1 {
            if n - i < 25 {
                proof {
                    assert(parse_rec(pre) is None);
                    assert(parse_list(pre) is None);
                }
                return Err(Error::SerializationError);
            }
            let deleted = read_u64_be(b, i + 9);
            let dlen64 = read_u64_be(b, i + 17);
            proof {
                assert(b@.subrange(i as int + 9, i as int + 17) =~= pre.subrange(9, 17));
                assert(b@.subrange(i as int + 17, i as int + 25) =~= pre.subrange(17, 25));
                lemma_be_val_bound(pre.subrange(9, 17));
            }
            let avail: usize = n - i - 25;
            if dlen64 > avail as u64 {
                proof {
                    assert(pre.len() < 25 + be_val(pre.subrange(17, 25)));
                    assert(parse_rec(pre) is None);
                    assert(parse_list(pre) is None);
                }
                return Err(Error::SerializationError);
            }
            let dlen: usize = dlen64 as usize;
            let data = copy_bytes_range(b, i + 25, i + 25 + dlen);
            let rec = Snapshot { created_by: created, deleted_by: Some(deleted), data };
            let ghost consumed = 25 + dlen as int;
            proof {
                assert(pre.subrange(25, 25 + dlen as int) =~= b@.subrange(
                    i as int + 25,
                    i as int + 25 + dlen as int,
                ));
                assert(parse_rec(pre) == Some((rec@, (25 + dlen as nat) as nat)));
                assert(pre.skip(consumed) =~= b@.skip(i as int + consumed));
                let ghost old_dv = out.deep_view();
                match parse_list(b@.skip(i as int + consumed)) {
                    Some(rest2) => {
                        assert(parse_list(pre) == Some(seq![rec@] + rest2));
                        assert(old_dv + (seq![rec@] + rest2) =~= (old_dv.push(rec@)) + rest2);
                    },
                    None => {},
                }
            }
            let ghost old_dv = out.deep_view();
            out.push(rec);
            proof {
                assert(out.deep_view() =~= old_dv.push(rec@));
            }
            i = i + 25 + dlen;
        } else {
            proof {
                assert(parse_rec(pre) is None);
                assert(parse_list(pre) is None);
            }
            return Err(Error::SerializationError);
        }
    }
    proof {
        assert(b@.skip(n as int) =~= Seq::<u8>::empty());
        assert(parse_list(b@.skip(n as int)) == Some(Seq::<Rec>::empty()));
        assert(out.deep_view() + Seq::<Rec>::empty() =~= out.deep_view());
    }
    Ok(out)
}

/// Interprets what the store returned for a posting-list key. On the insert
/// path an absent value stands for the empty list. On the delete path
/// (`must_exist`) an absent value, or a stored list holding no records, is
/// the structural conflict of an index entry that should exist but does
/// not, reported before anything is written. Corrupt bytes always fail with
/// [`Error::SerializationError`].
pub fn postings_of_stored(stored: Option<Vec<u8>>, must_exist: bool) -> (r: Result<
    Vec<Snapshot>,
    Error,
>)
    ensures
        stored is None && !must_exist ==> (r matches Ok(v) && v.deep_view()
            == Seq::<Rec>::empty()),
        stored is None && must_exist ==> r == Err::<Vec<Snapshot>, Error>(
            Error::IndexDataDeleteSyncConflict,
        ),
        stored matches Some(b) ==> (parse_list(b@) is None ==> r == Err::<Vec<Snapshot>, Error>(
            Error::SerializationError,
        )),
        stored matches Some(b) ==> (parse_list(b@) matches Some(l) ==> (((must_exist && l.len()
            == 0) ==> r == Err::<Vec<Snapshot>, Error>(Error::IndexDataDeleteSyncConflict)) && (!(
        must_exist && l.len() == 0) ==> (r matches Ok(v) && v.deep_view() == l)))),
{
    match stored {
        None => {
            if must_exist {
                Err(Error::IndexDataDeleteSyncConflict)
            } else {
                let v: Vec<Snapshot> = Vec::new();
                proof {
                    assert(v.deep_view() =~= Seq::<Rec>::empty());
                }
                Ok(v)
            }
        },
        Some(b) => {
            let list = deserialize_posting_list(&b)?;
            if must_exist && list.len() == 0 {
                return Err(Error::IndexDataDeleteSyncConflict);
            }
            Ok(list)
        },
    }
}

/// What appending a fresh posting does to the list: one new record, created
/// by `txid`, carrying the row's data key, not deleted.
pub open spec fn insert_posting_spec(l: Seq<Rec>, txid: u64, dk: Seq<u8>) -> Seq<Rec> {
    l.push(Rec { created_by: txid, deleted_by: None, data: dk })
}

/// Whether the delete path tombstones this record: its payload equals the
/// data key being removed and it is not already deleted as of `txid` —
/// regardless of who created it, since the deleting transaction is
/// authoritative for its row.
pub open spec fn delete_target(r: Rec, txid: u64, dk: Seq<u8>) -> bool {
    not_deleted_for(r, txid) && r.data == dk
}

/// What tombstoning a data key does to the list: every record the delete
/// path targets gets `deleted_by = txid`; every other record stays untouched.
pub open spec fn delete_posting_spec(l: Seq<Rec>, txid: u64, dk: Seq<u8>) -> Seq<Rec> {
    Seq::new(
        l.len(),
        |i: int|
            if delete_target(l[i], txid, dk) {
                Rec { created_by: l[i].created_by, deleted_by: Some(txid), data: l[i].data }
            } else {
                l[i]
            },
    )
}

/// Appends a fresh posting for `data_key` to the list.
pub fn insert_posting(list: &mut Vec<Snapshot>, txid: u64, data_key: &Vec<u8>)
    ensures
        final(list).deep_view() == insert_posting_spec(old(list).deep_view(), txid, data_key@),
{
    let rec = Snapshot::new(txid, copy_bytes(data_key));
    list.push(rec);
    proof {
        assert(list.deep_view() =~= insert_posting_spec(old(list).deep_view(), txid, data_key@));
    }
}

/// Tombstones, under `txid`, every record of the list whose payload equals
/// `data_key` and that is not already deleted as of `txid`; all other
/// records are kept as they are.
pub fn delete_postings(list: &Vec<Snapshot>, txid: u64, data_key: &Vec<u8>) -> (r: Vec<Snapshot>)
    ensures
        r.deep_view() == delete_posting_spec(list.deep_view(), txid, data_key@),
{
    let ghost goal = delete_posting_spec(list.deep_view(), txid, data_key@);
    let mut out: Vec<Snapshot> = Vec::new();
    let n = list.len();
    let mut i: usize = 0;
    while i < n
        invariant
            i <= n,
            n == list@.len(),
            goal == delete_posting_spec(list.deep_view(), txid, data_key@),
            out.deep_view() == goal.take(i as int),
        decreases n - i,
    {
        let ghost old_dv = out.deep_view();
        let rec = &list[i];
        let alive = match rec.deleted_by {
            None => true,
            Some(d) => d > txid,
        };
        if alive && bytes_eq(&rec.data, data_key) {
            out.push(
                Snapshot {
                    created_by: rec.created_by,
                    deleted_by: Some(txid),
                    data: copy_bytes(&rec.data),
                },
            );
        } else {
            out.push(
                Snapshot {
                    created_by: rec.created_by,
                    deleted_by: rec.deleted_by,
                    data: copy_bytes(&rec.data),
                },
            );
        }
        proof {
            assert(out.deep_view() =~= old_dv.push(goal[i as int]));
            assert(goal.take(i as int + 1) =~= goal.take(i as int).push(goal[i as int]));
        }
        i = i + 1;
    }
    proof {
        assert(goal.take(n as int) =~= goal);
    }
    out
}

} // verus!
