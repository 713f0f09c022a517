use vstd::prelude::*;

use crate::bytes::{be_bytes, bytes_eq, copy_bytes_range, lemma_be_bytes_of_val, read_u64_be,
    u64_to_be_bytes};
use crate::error::Error;
use crate::posting::{deserialize_posting_list, parse_list};
use crate::snapshot::extract_spec;
use vstd::string::StringSliceAdditionalSpecFns;
use vstd::string::StrSliceExecFns;
use vstd::utf8::{decode_utf8, decode_utf8_encode_utf8, encode_utf8, valid_utf8};

verus! {

/// The mathematical shape of one index definition.
pub ghost struct SchemaIndexView {
    pub name: Seq<char>,
    pub expr: Seq<char>,
}

/// The mathematical shape of what this layer reads of a schema.
pub ghost struct SchemaView {
    pub table_name: Seq<char>,
    pub columns: Seq<Seq<char>>,
    pub indexes: Seq<SchemaIndexView>,
}

/// One secondary-index definition: the index's name, unique within its
/// table, and the column whose evaluated value the index keys on. The full
/// expression evaluator stands outside this layer; here an index expression
/// is a plain column reference, and anything else fails to evaluate.
#[derive(Debug, PartialEq, Eq)]
pub struct SchemaIndex {
    pub name: String,
    pub expr: String,
}

impl View for SchemaIndex {
    type V = SchemaIndexView;

    open spec fn view(&self) -> SchemaIndexView {
        SchemaIndexView { name: self.name@, expr: self.expr@ }
    }
}

impl DeepView for SchemaIndex {
    type V = SchemaIndexView;

    open spec fn deep_view(&self) -> SchemaIndexView {
        self.view()
    }
}

impl Clone for SchemaIndex {
    fn clone(&self) -> (res: Self)
        ensures
            res@ == self@,
    {
        SchemaIndex { name: self.name.clone(), expr: self.expr.clone() }
    }
}

/// What this layer reads of a table's schema: the table name, the ordered
/// column names, and the table's index definitions. Created and removed by
/// DDL elsewhere; read-only here.
#[derive(Debug, PartialEq, Eq)]
pub struct Schema {
    pub table_name: String,
    pub column_names: Vec<String>,
    pub indexes: Vec<SchemaIndex>,
}

impl View for Schema {
    type V = SchemaView;

    open spec fn view(&self) -> SchemaView {
        SchemaView {
            table_name: self.table_name@,
            columns: self.column_names.deep_view(),
            indexes: self.indexes.deep_view(),
        }
    }
}

/// A byte field: the content behind its eight-byte big-endian length.
pub open spec fn ser_field(b: Seq<u8>) -> Seq<u8> {
    be_bytes(b.len(), 8) + b
}

/// Consecutive string fields.
pub open spec fn ser_str_list(l: Seq<Seq<char>>) -> Seq<u8>
    decreases l.len(),
{
    if l.len() == 0 {
        Seq::empty()
    } else {
        ser_field(encode_utf8(l.first())) + ser_str_list(l.drop_first())
    }
}

/// One index definition: its name field, then its expression field.
pub open spec fn ser_index(ix: SchemaIndexView) -> Seq<u8> {
    ser_field(encode_utf8(ix.name)) + ser_field(encode_utf8(ix.expr))
}

/// Consecutive index definitions.
pub open spec fn ser_index_list(l: Seq<SchemaIndexView>) -> Seq<u8>
    decreases l.len(),
{
    if l.len() == 0 {
        Seq::empty()
    } else {
        ser_index(l.first()) + ser_index_list(l.drop_first())
    }
}

/// The stored shape of a schema: the table name field, the column count and
/// the column name fields, then the index count and the index definitions.
pub open spec fn ser_schema(s: SchemaView) -> Seq<u8> {
    ser_field(encode_utf8(s.table_name)) + be_bytes(s.columns.len(), 8) + ser_str_list(s.columns)
        + be_bytes(s.indexes.len(), 8) + ser_index_list(s.indexes)
}

pub proof fn lemma_ser_str_list_push(l: Seq<Seq<char>>, s: Seq<char>)
    ensures
        ser_str_list(l.push(s)) == ser_str_list(l) + ser_field(encode_utf8(s)),
    decreases l.len(),
{
    if l.len() == 0 {
        let p = l.push(s);
        assert(p.first() == s);
        assert(p.drop_first() =~= Seq::<Seq<char>>::empty());
        assert(ser_str_list(p.drop_first()) == Seq::<u8>::empty());
        assert(ser_field(encode_utf8(s)) + Seq::<u8>::empty() =~= ser_field(encode_utf8(s)));
        assert(ser_str_list(l) == Seq::<u8>::empty());
        assert(ser_str_list(l) + ser_field(encode_utf8(s)) =~= ser_field(encode_utf8(s)));
    } else {
        assert(l.push(s).first() == l.first());
        assert(l.push(s).drop_first() =~= l.drop_first().push(s));
        lemma_ser_str_list_push(l.drop_first(), s);
        assert(ser_field(encode_utf8(l.first())) + (ser_str_list(l.drop_first()) + ser_field(
            encode_utf8(s),
        )) =~= (ser_field(encode_utf8(l.first())) + ser_str_list(l.drop_first())) + ser_field(
            encode_utf8(s),
        ));
    }
}

pub proof fn lemma_ser_index_list_push(l: Seq<SchemaIndexView>, ix: SchemaIndexView)
    ensures
        ser_index_list(l.push(ix)) == ser_index_list(l) + ser_index(ix),
    decreases l.len(),
{
    if l.len() == 0 {
        let p = l.push(ix);
        assert(p.first() == ix);
        assert(p.drop_first() =~= Seq::<SchemaIndexView>::empty());
        assert(ser_index_list(p.drop_first()) == Seq::<u8>::empty());
        assert(ser_index(ix) + Seq::<u8>::empty() =~= ser_index(ix));
        assert(ser_index_list(l) == Seq::<u8>::empty());
        assert(ser_index_list(l) + ser_index(ix) =~= ser_index(ix));
    } else {
        assert(l.push(ix).first() == l.first());
        assert(l.push(ix).drop_first() =~= l.drop_first().push(ix));
        lemma_ser_index_list_push(l.drop_first(), ix);
        assert(ser_index(l.first()) + (ser_index_list(l.drop_first()) + ser_index(ix)) =~= (
        ser_index(l.first()) + ser_index_list(l.drop_first())) + ser_index(ix));
    }
}

/// Compares two strings by their UTF-8 bytes, which agree exactly when the
/// character sequences do.
pub fn string_eq(a: &String, b: &String) -> (r: bool)
    ensures
        r == (a@ == b@),
{
    let av = a.as_str().as_bytes_vec();
    let bv = b.as_str().as_bytes_vec();
    let r = bytes_eq(&av, &bv);
    proof {
        if av@ == bv@ {
            vstd::utf8::encode_utf8_decode_utf8(a@);
            vstd::utf8::encode_utf8_decode_utf8(b@);
        }
    }
    r
}

/// Relies on `String::from_utf8`: succeeds exactly on valid UTF-8 and
/// returns the string those bytes encode.
#[verifier::external_body]
fn bytes_to_string(v: Vec<u8>) -> (r: Option<String>)
    ensures
        r matches Some(s) ==> valid_utf8(v@) && s@ == decode_utf8(v@),
        valid_utf8(v@) ==> r is Some,
{
    String::from_utf8(v).ok()
}

/// Writes one length-prefixed string field onto the end of `out`.
fn write_field(out: &mut Vec<u8>, s: &String)
    ensures
        final(out)@ == old(out)@ + ser_field(encode_utf8(s@)),
{
    let bytes = s.as_str().as_bytes_vec();
    let mut len = u64_to_be_bytes(bytes.len() as u64);
    out.append(&mut len);
    let mut bytes = bytes;
    out.append(&mut bytes);
    proof {
        assert(out@ =~= old(out)@ + ser_field(encode_utf8(s@)));
    }
}

/// Reads one length-prefixed string field at `pos`: the string and the
/// position just past the field.
fn read_field(b: &Vec<u8>, pos: usize) -> (r: Result<(String, usize), Error>)
    requires
        pos <= b@.len(),
    ensures
        r matches Ok(p) ==> pos + 8 <= p.1 <= b@.len() && b@.subrange(pos as int, p.1 as int)
            == ser_field(encode_utf8(p.0@)),
        r matches Err(e) ==> e == Error::SerializationError,
{
    let n = b.len();
    if n - pos < 8 {
        return Err(Error::SerializationError);
    }
    let flen64 = read_u64_be(b, pos);
    let avail: usize = n - pos - 8;
    if flen64 > avail as u64 {
        return Err(Error::SerializationError);
    }
    let flen: usize = flen64 as usize;
    let content = copy_bytes_range(b, pos + 8, pos + 8 + flen);
    let ghost content_bytes = content@;
    match bytes_to_string(content) {
        None => Err(Error::SerializationError),
        Some(s) => {
            proof {
                decode_utf8_encode_utf8(content_bytes);
                assert(encode_utf8(s@) == content_bytes);
                lemma_be_bytes_of_val(b@.subrange(pos as int, pos as int + 8));
                assert(b@.subrange(pos as int, pos as int + 8).len() == 8);
                assert(be_bytes(flen64 as nat, 8) == b@.subrange(pos as int, pos as int + 8));
                assert(flen as nat == content_bytes.len());
                assert(b@.subrange(pos as int, (pos + 8 + flen) as int) =~= b@.subrange(
                    pos as int,
                    pos as int + 8,
                ) + content_bytes);
            }
            Ok((s, pos + 8 + flen))
        },
    }
}

/// Serializes a schema into the byte shape stored in the schema store.
pub fn encode_schema(s: &Schema) -> (r: Vec<u8>)
    ensures
        r@ == ser_schema(s@),
{
    let mut out: Vec<u8> = Vec::new();
    write_field(&mut out, &s.table_name);
    let mut ncols = u64_to_be_bytes(s.column_names.len() as u64);
    out.append(&mut ncols);
    let ghost cols = s.column_names.deep_view();
    let ghost head = out@;
    let n = s.column_names.len();
    let mut i: usize = 0;
    while i < n
        invariant
            i <= n,
            n == s.column_names@.len(),
            cols == s.column_names.deep_view(),
            out@ == head + ser_str_list(cols.take(i as int)),
        decreases n - i,
    {
        proof {
            lemma_ser_str_list_push(cols.take(i as int), cols[i as int]);
            assert(cols.take(i as int + 1) =~= cols.take(i as int).push(cols[i as int]));
            assert(cols[i as int] == s.column_names@[i as int]@);
        }
        write_field(&mut out, &s.column_names[i]);
        proof {
            assert(head + (ser_str_list(cols.take(i as int)) + ser_field(
                encode_utf8(cols[i as int]),
            )) =~= (head + ser_str_list(cols.take(i as int))) + ser_field(
                encode_utf8(cols[i as int]),
            ));
        }
        i = i + 1;
    }
    proof {
        assert(cols.take(n as int) =~= cols);
    }
    let mut nidx = u64_to_be_bytes(s.indexes.len() as u64);
    out.append(&mut nidx);
    let ghost ixs = s.indexes.deep_view();
    let ghost head2 = out@;
    let m = s.indexes.len();
    let mut j: usize = 0;
    while j < m
        invariant
            j <= m,
            m == s.indexes@.len(),
            ixs == s.indexes.deep_view(),
            out@ == head2 + ser_index_list(ixs.take(j as int)),
        decreases m - j,
    {
        proof {
            lemma_ser_index_list_push(ixs.take(j as int), ixs[j as int]);
            assert(ixs.take(j as int + 1) =~= ixs.take(j as int).push(ixs[j as int]));
            assert(ixs[j as int] == s.indexes@[j as int]@);
        }
        let ghost before = out@;
        write_field(&mut out, &s.indexes[j].name);
        write_field(&mut out, &s.indexes[j].expr);
        proof {
            assert(out@ =~= before + ser_index(ixs[j as int]));
            assert(head2 + (ser_index_list(ixs.take(j as int)) + ser_index(ixs[j as int])) =~= (
            head2 + ser_index_list(ixs.take(j as int))) + ser_index(ixs[j as int]));
        }
        j = j + 1;
    }
    proof {
        assert(ixs.take(m as int) =~= ixs);
        assert(out@ =~= ser_schema(s@));
    }
    out
}

/// Reads a schema back from its stored bytes. On success the returned schema
/// re-serializes to exactly the input, so the stored shape is unambiguous.
pub fn decode_schema(b: &Vec<u8>) -> (r: Result<Schema, Error>)
    ensures
        r matches Ok(s) ==> b@ == ser_schema(s@),
        r matches Err(e) ==> e == Error::SerializationError,
{
    let n = b.len();
    let (table_name, mut pos) = read_field(b, 0)?;
    let ghost head0 = ser_field(encode_utf8(table_name@));
    proof {
        assert(b@.take(pos as int) =~= b@.subrange(0, pos as int));
    }
    if n - pos < 8 {
        return Err(Error::SerializationError);
    }
    let ncols64 = read_u64_be(b, pos);
    if ncols64 > n as u64 {
        return Err(Error::SerializationError);
    }
    let ncols: usize = ncols64 as usize;
    let ghost head1 = head0 + be_bytes(ncols as nat, 8);
    proof {
        lemma_be_bytes_of_val(b@.subrange(pos as int, pos as int + 8));
        assert(be_bytes(ncols as nat, 8) == b@.subrange(pos as int, pos as int + 8));
        assert(b@.take(pos as int + 8) =~= b@.take(pos as int) + b@.subrange(
            pos as int,
            pos as int + 8,
        ));
    }
    pos = pos + 8;
    let mut column_names: Vec<String> = Vec::new();
    let mut i: usize = 0;
    while i < ncols
        invariant
            i <= ncols,
            pos <= n,
            n == b@.len(),
            column_names.deep_view().len() == i,
            b@.take(pos as int) == head1 + ser_str_list(column_names.deep_view()),
        decreases ncols - i,
    {
        let ghost cols_before = column_names.deep_view();
        let (name, new_pos) = read_field(b, pos)?;
        proof {
            lemma_ser_str_list_push(cols_before, name@);
            assert(b@.take(new_pos as int) =~= b@.take(pos as int) + b@.subrange(
                pos as int,
                new_pos as int,
            ));
            assert((head1 + ser_str_list(cols_before)) + ser_field(encode_utf8(name@)) =~= head1 + (
            ser_str_list(cols_before) + ser_field(encode_utf8(name@))));
        }
        column_names.push(name);
        proof {
            assert(column_names.deep_view() =~= cols_before.push(name@));
        }
        pos = new_pos;
        i = i + 1;
    }
    if n - pos < 8 {
        return Err(Error::SerializationError);
    }
    let nidx64 = read_u64_be(b, pos);
    if nidx64 > n as u64 {
        return Err(Error::SerializationError);
    }
    let nidx: usize = nidx64 as usize;
    let ghost head2 = head1 + ser_str_list(column_names.deep_view()) + be_bytes(nidx as nat, 8);
    proof {
        lemma_be_bytes_of_val(b@.subrange(pos as int, pos as int + 8));
        assert(be_bytes(nidx as nat, 8) == b@.subrange(pos as int, pos as int + 8));
        assert(b@.take(pos as int + 8) =~= b@.take(pos as int) + b@.subrange(
            pos as int,
            pos as int + 8,
        ));
        assert(head1 + ser_str_list(column_names.deep_view()) + be_bytes(nidx as nat, 8) =~= (head1
            + ser_str_list(column_names.deep_view())) + be_bytes(nidx as nat, 8));
    }
    pos = pos + 8;
    let ghost cols_final = column_names.deep_view();
    let mut indexes: Vec<SchemaIndex> = Vec::new();
    let mut j: usize = 0;
    while j < nidx
        invariant
            j <= nidx,
            pos <= n,
            n == b@.len(),
            cols_final == column_names.deep_view(),
            indexes.deep_view().len() == j,
            b@.take(pos as int) == head2 + ser_index_list(indexes.deep_view()),
        decreases nidx - j,
    {
        let ghost ixs_before = indexes.deep_view();
        let (name, mid_pos) = read_field(b, pos)?;
        let (expr, new_pos) = read_field(b, mid_pos)?;
        let ix = SchemaIndex { name, expr };
        proof {
            lemma_ser_index_list_push(ixs_before, ix@);
            assert(b@.subrange(pos as int, new_pos as int) =~= b@.subrange(
                pos as int,
                mid_pos as int,
            ) + b@.subrange(mid_pos as int, new_pos as int));
            assert(b@.subrange(pos as int, new_pos as int) == ser_index(ix@));
            assert(b@.take(new_pos as int) =~= b@.take(pos as int) + b@.subrange(
                pos as int,
                new_pos as int,
            ));
            assert((head2 + ser_index_list(ixs_before)) + ser_index(ix@) =~= head2 + (
            ser_index_list(ixs_before) + ser_index(ix@)));
        }
        indexes.push(ix);
        proof {
            assert(indexes.deep_view() =~= ixs_before.push(
                SchemaIndexView { name: name@, expr: expr@ },
            ));
        }
        pos = new_pos;
        j = j + 1;
    }
    if pos != n {
        return Err(Error::SerializationError);
    }
    let schema = Schema { table_name, column_names, indexes };
    proof {
        assert(b@.take(n as int) =~= b@);
        assert(b@ =~= ser_schema(schema@));
    }
    Ok(schema)
}

/// Interprets what the store returned for a table's schema key, as a reader
/// at `txid` sees it. An absent value, or a schema record invisible at
/// `txid`, is the missing table — terminal for the transaction; a value
/// that is not a one-record list is corrupt. A returned schema
/// re-serializes to exactly the visible record's payload, so no two
/// schemas can stand behind the same stored value.
pub fn schema_of_stored(stored: Option<Vec<u8>>, txid: u64) -> (r: Result<Schema, Error>)
    ensures
        stored is None ==> r == Err::<Schema, Error>(Error::TableNotFoundOnConflict),
        stored matches Some(b) ==> (parse_list(b@) is None ==> r == Err::<Schema, Error>(
            Error::SerializationError,
        )),
        stored matches Some(b) ==> (parse_list(b@) matches Some(l) ==> ((l.len() != 1 ==> r
            == Err::<Schema, Error>(Error::SerializationError)) && (l.len() == 1 ==> ((
        extract_spec(l[0], txid, false) is None ==> r == Err::<Schema, Error>(
            Error::TableNotFoundOnConflict,
        )) && (extract_spec(l[0], txid, false) matches Some(payload) ==> ((r matches Ok(s)
            && ser_schema(s@) == payload) || r == Err::<Schema, Error>(
            Error::SerializationError,
        ))))))),
{
    let value = match stored {
        None => {
            return Err(Error::TableNotFoundOnConflict);
        },
        Some(b) => b,
    };
    let mut recs = deserialize_posting_list(&value)?;
    if recs.len() != 1 {
        return Err(Error::SerializationError);
    }
    let rec = match recs.pop() {
        Some(rec) => rec,
        None => {
            return Err(Error::SerializationError);
        },
    };
    let schema_bytes = match rec.extract(txid, false) {
        None => {
            return Err(Error::TableNotFoundOnConflict);
        },
        Some(b) => b,
    };
    decode_schema(&schema_bytes)
}

} // verus!
