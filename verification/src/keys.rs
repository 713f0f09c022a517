use vstd::prelude::*;

use crate::bytes::{be_bytes, copy_bytes, lemma_lex_lt_append, lex_lt, u64_to_be_bytes};
use crate::error::Error;
use crate::value::{encode_value_spec, is_encodable, lemma_encode_value_preserves_order, value_lt,
    Value};
use vstd::string::StrSliceExecFns;
use vstd::utf8::encode_utf8;

verus! {

/// The ASCII bytes of `"index/"`, the namespace under which every index key
/// lives.
pub open spec fn index_namespace() -> Seq<u8> {
    seq![105u8, 110u8, 100u8, 101u8, 120u8, 47u8]
}

/// The ASCII bytes of `"temp_index/"`, the transaction-scoped namespace of
/// the touch markers.
pub open spec fn temp_index_namespace() -> Seq<u8> {
    seq![116u8, 101u8, 109u8, 112u8, 95u8, 105u8, 110u8, 100u8, 101u8, 120u8, 47u8]
}

/// The ASCII bytes of `"schema/"`, the namespace of the schema store.
pub open spec fn schema_namespace() -> Seq<u8> {
    seq![115u8, 99u8, 104u8, 101u8, 109u8, 97u8, 47u8]
}

/// `"index/" + table + "/" + index + "/"`: the bytes every posting key of one
/// index starts with, so a prefix scan enumerates exactly that index, in
/// value order.
pub open spec fn index_key_prefix_spec(table: Seq<char>, index: Seq<char>) -> Seq<u8> {
    index_namespace() + encode_utf8(table) + seq![47u8] + encode_utf8(index) + seq![47u8]
}

/// The full store key of one indexed value: the index's prefix followed by
/// the value's order-preserving encoding.
pub open spec fn index_key_spec(table: Seq<char>, index: Seq<char>, v: Value) -> Seq<u8> {
    index_key_prefix_spec(table, index) + encode_value_spec(v)
}

/// The touch-marker key of one index key under one transaction:
/// `"temp_index/" + txid (big-endian) + "/" + index_key`.
pub open spec fn temp_index_key_spec(txid: u64, index_key: Seq<u8>) -> Seq<u8> {
    temp_index_namespace() + be_bytes(txid as nat, 8) + seq![47u8] + index_key
}

/// The schema-store key of one table: `"schema/" + table`.
pub open spec fn schema_key_spec(table: Seq<char>) -> Seq<u8> {
    schema_namespace() + encode_utf8(table)
}

/// Builds the byte prefix shared by every posting of one index. Pure:
/// safe to use for read-side range-scan planning as well as for writes.
pub fn build_index_key_prefix(table_name: &str, index_name: &str) -> (r: Vec<u8>)
    ensures
        r@ == index_key_prefix_spec(table_name@, index_name@),
{
    let mut out: Vec<u8> = Vec::new();
    out.push(105u8);
    out.push(110u8);
    out.push(100u8);
    out.push(101u8);
    out.push(120u8);
    out.push(47u8);
    let mut t = table_name.as_bytes_vec();
    out.append(&mut t);
    out.push(47u8);
    let mut i = index_name.as_bytes_vec();
    out.append(&mut i);
    out.push(47u8);
    proof {
        assert(out@ =~= index_key_prefix_spec(table_name@, index_name@));
    }
    out
}

/// Builds the full store key of `value` under the given index: the index's
/// prefix followed by the value's order-preserving encoding. Fails with
/// [`Error::EncodingError`] exactly when the value's kind has no such
/// encoding. Pure and side-effect-free.
pub fn build_index_key(table_name: &str, index_name: &str, value: Value) -> (r: Result<
    Vec<u8>,
    Error,
>)
    ensures
        r matches Ok(k) ==> is_encodable(value) && k@ == index_key_spec(
            table_name@,
            index_name@,
            value,
        ),
        r matches Err(e) ==> !is_encodable(value) && e == Error::EncodingError,
{
    let mut out = build_index_key_prefix(table_name, index_name);
    let mut encoded = match value.to_order_preserving_bytes() {
        Ok(b) => b,
        Err(e) => {
            return Err(e);
        },
    };
    out.append(&mut encoded);
    Ok(out)
}

/// Builds the touch-marker key recording that the running transaction wrote
/// the given index key.
pub fn build_temp_index_key(txid: u64, index_key: &Vec<u8>) -> (r: Vec<u8>)
    ensures
        r@ == temp_index_key_spec(txid, index_key@),
{
    let mut out: Vec<u8> = Vec::new();
    out.push(116u8);
    out.push(101u8);
    out.push(109u8);
    out.push(112u8);
    out.push(95u8);
    out.push(105u8);
    out.push(110u8);
    out.push(100u8);
    out.push(101u8);
    out.push(120u8);
    out.push(47u8);
    let mut t = u64_to_be_bytes(txid);
    out.append(&mut t);
    out.push(47u8);
    let mut k = copy_bytes(index_key);
    out.append(&mut k);
    proof {
        assert(out@ =~= temp_index_key_spec(txid, index_key@));
    }
    out
}

/// Builds the schema-store key of one table.
pub fn build_schema_key(table_name: &str) -> (r: Vec<u8>)
    ensures
        r@ == schema_key_spec(table_name@),
{
    let mut out: Vec<u8> = Vec::new();
    out.push(115u8);
    out.push(99u8);
    out.push(104u8);
    out.push(101u8);
    out.push(109u8);
    out.push(97u8);
    out.push(47u8);
    let mut t = table_name.as_bytes_vec();
    out.append(&mut t);
    proof {
        assert(out@ =~= schema_key_spec(table_name@));
    }
    out
}

/// Order preservation of the whole index key: for comparable values
/// `v1 < v2`, the store key built for `v1` is lexicographically below the
/// one built for `v2`, so byte order on index keys is exactly value order.
pub proof fn lemma_index_key_preserves_order(
    table: Seq<char>,
    index: Seq<char>,
    v1: Value,
    v2: Value,
)
    requires
        value_lt(v1, v2),
    ensures
        lex_lt(index_key_spec(table, index, v1), index_key_spec(table, index, v2)),
{
    lemma_encode_value_preserves_order(v1, v2);
    lemma_lex_lt_append(
        index_key_prefix_spec(table, index),
        index_key_prefix_spec(table, index),
        encode_value_spec(v1),
        encode_value_spec(v2),
    );
}

} // verus!
