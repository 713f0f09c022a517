use vstd::prelude::*;

use crate::error::Error;
use crate::keys::{build_index_key, build_schema_key, build_temp_index_key, index_key_spec};
use crate::posting::{delete_postings, insert_posting, postings_of_stored,
    serialize_posting_list};
use crate::schema::{schema_of_stored, string_eq, Schema, SchemaIndex};
use crate::store::{tree_get, tree_insert};
use crate::value::{is_encodable, Value};

verus! {

/// First position of `name` among `cols`, scanning from `from` on.
pub open spec fn find_column_from(cols: Seq<Seq<char>>, name: Seq<char>, from: int) -> Option<int>
    decreases cols.len() - from,
{
    if from < 0 || from >= cols.len() {
        None
    } else if cols[from] == name {
        Some(from)
    } else {
        find_column_from(cols, name, from + 1)
    }
}

/// What an index expression evaluates to on a row aligned positionally
/// with the column list. The expression evaluator proper is an external
/// collaborator of this layer: the expressions handled here are plain
/// column references, and any other expression evaluates to nothing.
pub open spec fn eval_index_value(cols: Seq<Seq<char>>, row: Seq<Value>, expr: Seq<char>) -> Option<
    Value,
> {
    match find_column_from(cols, expr, 0) {
        Some(j) => if j < row.len() {
            Some(row[j])
        } else {
            None
        },
        None => None,
    }
}

/// The store key one index assigns to one row, when the index expression
/// evaluates to an encodable value; nothing otherwise.
pub open spec fn eval_index_key_spec(
    table: Seq<char>,
    index_name: Seq<char>,
    expr: Seq<char>,
    cols: Seq<Seq<char>>,
    row: Seq<Value>,
) -> Option<Seq<u8>> {
    match eval_index_value(cols, row, expr) {
        Some(v) => if is_encodable(v) {
            Some(index_key_spec(table, index_name, v))
        } else {
            None
        },
        None => None,
    }
}

/// Evaluates one index's expression over `(columns, row)` and builds the
/// store key of the resulting value. Fails with [`Error::EncodingError`]
/// exactly when the expression does not evaluate, on this row, to an
/// encodable value.
pub fn evaluate_index_key(
    table_name: &String,
    index_name: &String,
    index_expr: &String,
    columns: &Vec<String>,
    row: &Vec<Value>,
) -> (r: Result<Vec<u8>, Error>)
    ensures
        r matches Ok(k) ==> eval_index_key_spec(
            table_name@,
            index_name@,
            index_expr@,
            columns.deep_view(),
            row@,
        ) == Some(k@),
        r matches Err(e) ==> eval_index_key_spec(
            table_name@,
            index_name@,
            index_expr@,
            columns.deep_view(),
            row@,
        ) is None && e == Error::EncodingError,
{
    let ghost cols = columns.deep_view();
    let n = columns.len();
    let mut i: usize = 0;
    while i < n
        invariant
            i <= n,
            n == columns@.len(),
            cols == columns.deep_view(),
            find_column_from(cols, index_expr@, 0) == find_column_from(cols, index_expr@, i as int),
        decreases n - i,
    {
        if string_eq(&columns[i], index_expr) {
            if i >= row.len() {
                return Err(Error::EncodingError);
            }
            let value = row[i].clone();
            return build_index_key(table_name.as_str(), index_name.as_str(), value);
        }
        i = i + 1;
    }
    Err(Error::EncodingError)
}

/// Keeps every secondary index of one table consistent with that table's
/// rows, inside one transaction. Constructed per `(transaction, table)`
/// pairing; nothing survives across transactions.
pub struct IndexSync<'a> {
    pub tree: &'a sled::transaction::TransactionalTree,
    pub txid: u64,
    pub table_name: String,
    pub columns: Vec<String>,
    pub indexes: Vec<SchemaIndex>,
}

impl<'a> IndexSync<'a> {
    /// Builds a synchronizer from an already-loaded schema: its column names
    /// and index definitions are taken as they stand, with no store access.
    pub fn from_schema(
        tree: &'a sled::transaction::TransactionalTree,
        txid: u64,
        schema: &Schema,
    ) -> (r: Self)
        ensures
            r.txid == txid,
            r.table_name@ == schema@.table_name,
            r.columns.deep_view() == schema@.columns,
            r.indexes.deep_view() == schema@.indexes,
    {
        let mut columns: Vec<String> = Vec::new();
        let ncols = schema.column_names.len();
        let mut i: usize = 0;
        while i < ncols
            invariant
                i <= ncols,
                ncols == schema.column_names@.len(),
                columns@.len() == i,
                forall|k: int| 0 <= k < i ==> #[trigger] columns@[k]@ == schema.column_names@[k]@,
            decreases ncols - i,
        {
            let item = schema.column_names[i].clone();
            columns.push(item);
            i = i + 1;
        }
        let mut indexes: Vec<SchemaIndex> = Vec::new();
        let nidx = schema.indexes.len();
        let mut j: usize = 0;
        while j < nidx
            invariant
                j <= nidx,
                nidx == schema.indexes@.len(),
                indexes@.len() == j,
                forall|k: int| 0 <= k < j ==> #[trigger] indexes@[k]@ == schema.indexes@[k]@,
            decreases nidx - j,
        {
            let item = schema.indexes[j].clone();
            indexes.push(item);
            j = j + 1;
        }
        proof {
            assert forall|k: int| 0 <= k < ncols implies columns.deep_view()[k]
                == schema.column_names.deep_view()[k] by {
                assert(columns.deep_view()[k] == columns@[k]@);
                assert(schema.column_names.deep_view()[k] == schema.column_names@[k]@);
            }
            assert(columns.deep_view() =~= schema.column_names.deep_view());
            assert forall|k: int| 0 <= k < nidx implies indexes.deep_view()[k]
                == schema.indexes.deep_view()[k] by {
                assert(indexes.deep_view()[k] == indexes@[k]@);
                assert(schema.indexes.deep_view()[k] == schema.indexes@[k]@);
            }
            assert(indexes.deep_view() =~= schema.indexes.deep_view());
        }
        IndexSync { tree, txid, table_name: schema.table_name.clone(), columns, indexes }
    }

    /// Builds a synchronizer from the table name alone: fetches the schema
    /// version visible to this transaction from the schema store. When no
    /// schema is visible — the table was dropped concurrently, or never
    /// existed — fails with [`Error::TableNotFoundOnConflict`], which must
    /// abort the whole enclosing transaction.
    pub fn new(
        tree: &'a sled::transaction::TransactionalTree,
        txid: u64,
        table_name: &str,
    ) -> (r: Result<Self, Error>)
        ensures
            r matches Ok(s) ==> s.txid == txid && s.table_name@ == table_name@,
            r matches Err(e) ==> (e == Error::TableNotFoundOnConflict || e == Error::StoreError
                || e == Error::SerializationError),
    {
        let key = build_schema_key(table_name);
        let stored = tree_get(tree, &key)?;
        let schema = schema_of_stored(stored, txid)?;
        let Schema { table_name: _, column_names, indexes } = schema;
        Ok(IndexSync { tree, txid, table_name: table_name.to_owned(), columns: column_names, indexes })
    }

    /// Appends, for every index of the table, a fresh posting mapping the
    /// row's evaluated index value to `data_key`, and records a touch marker
    /// for each written index key. Any failure aborts the transaction; with
    /// no indexes there is nothing to do and the call succeeds.
    pub fn insert(&self, data_key: &Vec<u8>, row: &Vec<Value>) -> (r: Result<(), Error>)
        ensures
            self.indexes@.len() == 0 ==> r is Ok,
            r is Ok ==> forall|j: int|
                0 <= j < self.indexes@.len() ==> eval_index_key_spec(
                    self.table_name@,
                    self.indexes@[j]@.name,
                    self.indexes@[j]@.expr,
                    self.columns.deep_view(),
                    row@,
                ) is Some,
            r matches Err(e) ==> (e == Error::EncodingError || e == Error::StoreError || e
                == Error::SerializationError),
    {
        let n = self.indexes.len();
        let mut i: usize = 0;
        while i < n
            invariant
                i <= n,
                n == self.indexes@.len(),
                forall|j: int|
                    0 <= j < i ==> eval_index_key_spec(
                        self.table_name@,
                        self.indexes@[j]@.name,
                        self.indexes@[j]@.expr,
                        self.columns.deep_view(),
                        row@,
                    ) is Some,
            decreases n - i,
        {
            self.insert_index(&self.indexes[i], data_key, row)?;
            i = i + 1;
        }
        Ok(())
    }

    /// The insert step of one index: evaluates the index key and appends the
    /// posting. Fails with [`Error::EncodingError`] exactly when the index
    /// expression does not evaluate to an encodable value for this row.
    pub fn insert_index(&self, index: &SchemaIndex, data_key: &Vec<u8>, row: &Vec<Value>) -> (r:
        Result<(), Error>)
        ensures
            eval_index_key_spec(
                self.table_name@,
                index.name@,
                index.expr@,
                self.columns.deep_view(),
                row@,
            ) is None <==> r == Err::<(), Error>(Error::EncodingError),
            r matches Err(e) ==> (e == Error::EncodingError || e == Error::StoreError || e
                == Error::SerializationError),
    {
        let index_key = evaluate_index_key(
            &self.table_name,
            &index.name,
            &index.expr,
            &self.columns,
            row,
        )?;
        self.insert_index_data(&index_key, data_key)?;
        Ok(())
    }

    /// For every index: tombstones the posting under the old row's index key
    /// and appends a fresh posting under the new row's, in that order, even
    /// when the two keys are equal — the net visible effect at this
    /// transaction is then still exactly one live posting for `data_key`.
    pub fn update(&self, data_key: &Vec<u8>, old_row: &Vec<Value>, new_row: &Vec<Value>) -> (r:
        Result<(), Error>)
        ensures
            self.indexes@.len() == 0 ==> r is Ok,
            r is Ok ==> forall|j: int|
                0 <= j < self.indexes@.len() ==> eval_index_key_spec(
                    self.table_name@,
                    self.indexes@[j]@.name,
                    self.indexes@[j]@.expr,
                    self.columns.deep_view(),
                    old_row@,
                ) is Some && eval_index_key_spec(
                    self.table_name@,
                    self.indexes@[j]@.name,
                    self.indexes@[j]@.expr,
                    self.columns.deep_view(),
                    new_row@,
                ) is Some,
            r matches Err(e) ==> (e == Error::EncodingError || e == Error::StoreError || e
                == Error::SerializationError || e == Error::IndexDataDeleteSyncConflict),
    {
        let n = self.indexes.len();
        let mut i: usize = 0;
        while i < n
            invariant
                i <= n,
                n == self.indexes@.len(),
                forall|j: int|
                    0 <= j < i ==> eval_index_key_spec(
                        self.table_name@,
                        self.indexes@[j]@.name,
                        self.indexes@[j]@.expr,
                        self.columns.deep_view(),
                        old_row@,
                    ) is Some && eval_index_key_spec(
                        self.table_name@,
                        self.indexes@[j]@.name,
                        self.indexes@[j]@.expr,
                        self.columns.deep_view(),
                        new_row@,
                    ) is Some,
            decreases n - i,
        {
            let index = &self.indexes[i];
            let old_index_key = evaluate_index_key(
                &self.table_name,
                &index.name,
                &index.expr,
                &self.columns,
                old_row,
            )?;
            let new_index_key = evaluate_index_key(
                &self.table_name,
                &index.name,
                &index.expr,
                &self.columns,
                new_row,
            )?;
            self.delete_index_data(&old_index_key, data_key)?;
            self.insert_index_data(&new_index_key, data_key)?;
            i = i + 1;
        }
        Ok(())
    }

    /// Tombstones, for every index of the table, the row's posting under its
    /// evaluated index key, and records a touch marker for each written
    /// index key.
    pub fn delete(&self, data_key: &Vec<u8>, row: &Vec<Value>) -> (r: Result<(), Error>)
        ensures
            self.indexes@.len() == 0 ==> r is Ok,
            r is Ok ==> forall|j: int|
                0 <= j < self.indexes@.len() ==> eval_index_key_spec(
                    self.table_name@,
                    self.indexes@[j]@.name,
                    self.indexes@[j]@.expr,
                    self.columns.deep_view(),
                    row@,
                ) is Some,
            r matches Err(e) ==> (e == Error::EncodingError || e == Error::StoreError || e
                == Error::SerializationError || e == Error::IndexDataDeleteSyncConflict),
    {
        let n = self.indexes.len();
        let mut i: usize = 0;
        while i < n
            invariant
                i <= n,
                n == self.indexes@.len(),
                forall|j: int|
                    0 <= j < i ==> eval_index_key_spec(
                        self.table_name@,
                        self.indexes@[j]@.name,
                        self.indexes@[j]@.expr,
                        self.columns.deep_view(),
                        row@,
                    ) is Some,
            decreases n - i,
        {
            self.delete_index(&self.indexes[i], data_key, row)?;
            i = i + 1;
        }
        Ok(())
    }

    /// The delete step of one index: evaluates the index key and tombstones
    /// the row's posting there. Fails with [`Error::EncodingError`] exactly
    /// when the index expression does not evaluate to an encodable value.
    pub fn delete_index(&self, index: &SchemaIndex, data_key: &Vec<u8>, row: &Vec<Value>) -> (r:
        Result<(), Error>)
        ensures
            eval_index_key_spec(
                self.table_name@,
                index.name@,
                index.expr@,
                self.columns.deep_view(),
                row@,
            ) is None <==> r == Err::<(), Error>(Error::EncodingError),
            r matches Err(e) ==> (e == Error::EncodingError || e == Error::StoreError || e
                == Error::SerializationError || e == Error::IndexDataDeleteSyncConflict),
    {
        let index_key = evaluate_index_key(
            &self.table_name,
            &index.name,
            &index.expr,
            &self.columns,
            row,
        )?;
        self.delete_index_data(&index_key, data_key)?;
        Ok(())
    }

    /// One read-modify-write of a posting list for an insert: reads the
    /// current list (empty when the key is absent), appends a fresh record
    /// created by this transaction, writes the list back, and records the
    /// touch marker. Exactly one read and two writes.
    fn insert_index_data(&self, index_key: &Vec<u8>, data_key: &Vec<u8>) -> (r: Result<(), Error>)
        ensures
            r matches Err(e) ==> (e == Error::StoreError || e == Error::SerializationError),
    {
        let stored = tree_get(self.tree, index_key)?;
        let mut postings = postings_of_stored(stored, false)?;
        insert_posting(&mut postings, self.txid, data_key);
        let serialized = serialize_posting_list(&postings);
        tree_insert(self.tree, index_key, serialized)?;
        let temp_key = build_temp_index_key(self.txid, index_key);
        let marker = crate::bytes::copy_bytes(index_key);
        tree_insert(self.tree, &temp_key, marker)?;
        Ok(())
    }

    /// One read-modify-write of a posting list for a delete: the row's
    /// index entry must exist, so an absent value — or a stored list holding
    /// no records at all — means index and row data diverged, and fails with
    /// [`Error::IndexDataDeleteSyncConflict`] before anything is written.
    /// Otherwise every record carrying `data_key` and not already deleted is
    /// tombstoned by this transaction, the list is written back, and the
    /// touch marker recorded.
    fn delete_index_data(&self, index_key: &Vec<u8>, data_key: &Vec<u8>) -> (r: Result<(), Error>)
        ensures
            r matches Err(e) ==> (e == Error::StoreError || e == Error::SerializationError || e
                == Error::IndexDataDeleteSyncConflict),
    {
        let stored = tree_get(self.tree, index_key)?;
        let postings = postings_of_stored(stored, true)?;
        let postings = delete_postings(&postings, self.txid, data_key);
        let serialized = serialize_posting_list(&postings);
        tree_insert(self.tree, index_key, serialized)?;
        let temp_key = build_temp_index_key(self.txid, index_key);
        let marker = crate::bytes::copy_bytes(index_key);
        tree_insert(self.tree, &temp_key, marker)?;
        Ok(())
    }
}

} // verus!
