use vstd::prelude::*;

use crate::bytes::{be_bytes, lemma_be_bytes_order, lemma_lex_lt_append, lemma_pow256_64, lex_lt,
    u64_to_be_bytes};
use crate::error::Error;
use vstd::string::StrSliceExecFns;
use vstd::utf8::encode_utf8;

verus! {

/// A tagged scalar value, as the expression evaluator hands it to the index
/// layer. Only some kinds of value have an order-preserving byte encoding;
/// encoding any other kind fails with [`Error::EncodingError`].
#[derive(Debug, PartialEq, Eq)]
pub enum Value {
    Null,
    Bool(bool),
    I64(i64),
    Str(String),
}

impl Clone for Value {
    fn clone(&self) -> (res: Self)
        ensures
            res == self,
    {
        match self {
            Value::Null => Value::Null,
            Value::Bool(b) => Value::Bool(*b),
            Value::I64(x) => Value::I64(*x),
            Value::Str(s) => Value::Str(s.clone()),
        }
    }
}

/// Whether the value's kind has an order-preserving byte encoding. Null
/// carries no order, so it stays unencodable.
pub open spec fn is_encodable(v: Value) -> bool {
    !(v is Null)
}

/// The order on values that the byte encoding preserves. Values of different
/// kinds are incomparable; booleans order false before true; integers order
/// numerically; text orders by its UTF-8 bytes, which is exactly how `str`
/// itself orders.
pub open spec fn value_lt(a: Value, b: Value) -> bool {
    match (a, b) {
        (Value::Bool(x), Value::Bool(y)) => !x && y,
        (Value::I64(x), Value::I64(y)) => x < y,
        (Value::Str(x), Value::Str(y)) => lex_lt(encode_utf8(x@), encode_utf8(y@)),
        _ => false,
    }
}

/// The order-preserving encoding: a kind tag, then the payload written so
/// that byte-wise comparison matches the value order. Signed integers are
/// shifted into unsigned range and written big-endian.
pub open spec fn encode_value_spec(v: Value) -> Seq<u8> {
    match v {
        Value::Null => Seq::empty(),
        Value::Bool(b) => seq![1u8, if b { 1u8 } else { 0u8 }],
        Value::I64(x) => seq![2u8] + be_bytes((x + 0x8000_0000_0000_0000) as nat, 8),
        Value::Str(s) => seq![3u8] + encode_utf8(s@),
    }
}

impl Value {
    /// Encodes the value so that for any two comparable values the encodings
    /// compare byte-wise exactly as the values compare; fails on a kind with
    /// no such encoding.
    pub fn to_order_preserving_bytes(&self) -> (r: Result<Vec<u8>, Error>)
        ensures
            r matches Ok(b) ==> is_encodable(*self) && b@ == encode_value_spec(*self),
            r matches Err(e) ==> !is_encodable(*self) && e == Error::EncodingError,
    {
        match self {
            Value::Null => Err(Error::EncodingError),
            Value::Bool(b) => {
                let mut out: Vec<u8> = Vec::new();
                out.push(1u8);
                out.push(if *b { 1u8 } else { 0u8 });
                proof {
                    assert(out@ =~= encode_value_spec(*self));
                }
                Ok(out)
            },
            Value::I64(x) => {
                let biased: u64 = ((*x as i128) + 0x8000_0000_0000_0000i128) as u64;
                let mut out: Vec<u8> = Vec::new();
                out.push(2u8);
                let mut payload = u64_to_be_bytes(biased);
                out.append(&mut payload);
                proof {
                    assert(biased as nat == (*x + 0x8000_0000_0000_0000) as nat);
                    assert(out@ =~= encode_value_spec(*self));
                }
                Ok(out)
            },
            Value::Str(s) => {
                let mut out: Vec<u8> = Vec::new();
                out.push(3u8);
                let mut payload = s.as_str().as_bytes_vec();
                out.append(&mut payload);
                proof {
                    assert(out@ =~= encode_value_spec(*self));
                }
                Ok(out)
            },
        }
    }
}

/// Order preservation of the value encoding: for comparable values `a < b`,
/// `a`'s encoding is lexicographically below `b`'s.
pub proof fn lemma_encode_value_preserves_order(a: Value, b: Value)
    requires
        value_lt(a, b),
    ensures
        lex_lt(encode_value_spec(a), encode_value_spec(b)),
{
    match (a, b) {
        (Value::Bool(x), Value::Bool(y)) => {
            assert(!x && y);
            assert(seq![1u8, 0u8].drop_first() =~= seq![0u8]);
            assert(seq![1u8, 1u8].drop_first() =~= seq![1u8]);
            assert(lex_lt(seq![0u8], seq![1u8]));
            assert(lex_lt(seq![1u8, 0u8], seq![1u8, 1u8]));
        },
        (Value::I64(x), Value::I64(y)) => {
            let bx = (x + 0x8000_0000_0000_0000) as nat;
            let by = (y + 0x8000_0000_0000_0000) as nat;
            lemma_pow256_64();
            lemma_be_bytes_order(bx, by, 8);
            lemma_lex_lt_append(seq![2u8], seq![2u8], be_bytes(bx, 8), be_bytes(by, 8));
        },
        (Value::Str(x), Value::Str(y)) => {
            lemma_lex_lt_append(seq![3u8], seq![3u8], encode_utf8(x@), encode_utf8(y@));
        },
        _ => {},
    }
}

} // verus!
