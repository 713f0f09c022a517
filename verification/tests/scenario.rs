use index_sync::error::Error;
use index_sync::index_sync::IndexSync;
use index_sync::keys::{build_index_key, build_schema_key, build_temp_index_key};
use index_sync::posting::serialize_posting_list;
use index_sync::schema::{encode_schema, Schema, SchemaIndex};
use index_sync::snapshot::Snapshot;
use index_sync::value::Value;
use sled::transaction::ConflictableTransactionError;

fn bar_schema() -> Schema {
    Schema {
        table_name: "Bar".to_owned(),
        column_names: vec!["id".to_owned()],
        indexes: vec![SchemaIndex {
            name: "idx_id".to_owned(),
            expr: "id".to_owned(),
        }],
    }
}

fn run<F>(db: &sled::Db, f: F) -> Result<(), Error>
where
    F: Fn(&sled::transaction::TransactionalTree) -> Result<(), Error>,
{
    let result: sled::transaction::TransactionResult<(), Error> = db.transaction(|tx| {
        f(tx).map_err(ConflictableTransactionError::Abort)?;
        Ok(())
    });
    match result {
        Ok(()) => Ok(()),
        Err(sled::transaction::TransactionError::Abort(e)) => Err(e),
        Err(sled::transaction::TransactionError::Storage(_)) => Err(Error::StoreError),
    }
}

#[test]
fn scenario_insert_update_delete() {
    let db = sled::Config::new().temporary(true).open().unwrap();
    let schema = bar_schema();
    let k1 = b"k1".to_vec();
    let key5 = build_index_key("Bar", "idx_id", Value::I64(5)).unwrap();
    let key7 = build_index_key("Bar", "idx_id", Value::I64(7)).unwrap();

    // Insert row id=5 at data key k1 under transaction 1.
    run(&db, |tx| {
        let sync = IndexSync::from_schema(tx, 1, &schema);
        sync.insert(&k1, &vec![Value::I64(5)])
    })
    .unwrap();
    let stored = db.get(&key5).unwrap().unwrap().to_vec();
    let expected = serialize_posting_list(&vec![Snapshot::new(1, k1.clone())]);
    assert_eq!(stored, expected);
    // The touch marker of transaction 1 names the written index key.
    let marker = db.get(build_temp_index_key(1, &key5)).unwrap().unwrap();
    assert_eq!(marker.to_vec(), key5);

    // Update to id=7 under transaction 2.
    run(&db, |tx| {
        let sync = IndexSync::from_schema(tx, 2, &schema);
        sync.update(&k1, &vec![Value::I64(5)], &vec![Value::I64(7)])
    })
    .unwrap();
    let stored5 = db.get(&key5).unwrap().unwrap().to_vec();
    let expected5 = serialize_posting_list(&vec![Snapshot {
        created_by: 1,
        deleted_by: Some(2),
        data: k1.clone(),
    }]);
    assert_eq!(stored5, expected5);
    let stored7 = db.get(&key7).unwrap().unwrap().to_vec();
    let expected7 = serialize_posting_list(&vec![Snapshot::new(2, k1.clone())]);
    assert_eq!(stored7, expected7);

    // Delete under transaction 3.
    run(&db, |tx| {
        let sync = IndexSync::from_schema(tx, 3, &schema);
        sync.delete(&k1, &vec![Value::I64(7)])
    })
    .unwrap();
    let stored7 = db.get(&key7).unwrap().unwrap().to_vec();
    let expected7 = serialize_posting_list(&vec![Snapshot {
        created_by: 2,
        deleted_by: Some(3),
        data: k1.clone(),
    }]);
    assert_eq!(stored7, expected7);
}

#[test]
fn update_with_unchanged_key_leaves_one_live_posting() {
    let db = sled::Config::new().temporary(true).open().unwrap();
    let schema = bar_schema();
    let k1 = b"k1".to_vec();
    let key5 = build_index_key("Bar", "idx_id", Value::I64(5)).unwrap();
    run(&db, |tx| {
        let sync = IndexSync::from_schema(tx, 1, &schema);
        sync.insert(&k1, &vec![Value::I64(5)])
    })
    .unwrap();
    run(&db, |tx| {
        let sync = IndexSync::from_schema(tx, 2, &schema);
        sync.update(&k1, &vec![Value::I64(5)], &vec![Value::I64(5)])
    })
    .unwrap();
    let stored = db.get(&key5).unwrap().unwrap().to_vec();
    let expected = serialize_posting_list(&vec![
        Snapshot {
            created_by: 1,
            deleted_by: Some(2),
            data: k1.clone(),
        },
        Snapshot::new(2, k1.clone()),
    ]);
    assert_eq!(stored, expected);
    // Exactly one record is visible at transaction 2 and later.
    let visible: Vec<Snapshot> = index_sync::posting::deserialize_posting_list(&stored)
        .unwrap()
        .into_iter()
        .filter(|r| r.get(2, false).is_some())
        .collect();
    assert_eq!(visible, vec![Snapshot::new(2, k1.clone())]);
}

#[test]
fn insert_then_delete_same_transaction_hides_row() {
    let db = sled::Config::new().temporary(true).open().unwrap();
    let schema = bar_schema();
    let k1 = b"k1".to_vec();
    let key5 = build_index_key("Bar", "idx_id", Value::I64(5)).unwrap();
    run(&db, |tx| {
        let sync = IndexSync::from_schema(tx, 1, &schema);
        sync.insert(&k1, &vec![Value::I64(5)])?;
        sync.delete(&k1, &vec![Value::I64(5)])
    })
    .unwrap();
    let stored = db.get(&key5).unwrap().unwrap().to_vec();
    let records = index_sync::posting::deserialize_posting_list(&stored).unwrap();
    for reader in [1u64, 2, 100] {
        for rec in &records {
            assert!(rec.get(reader, false).is_none());
        }
    }
}

#[test]
fn delete_against_missing_posting_list_fails_and_writes_nothing() {
    let db = sled::Config::new().temporary(true).open().unwrap();
    let schema = bar_schema();
    let k1 = b"k1".to_vec();
    let result = run(&db, |tx| {
        let sync = IndexSync::from_schema(tx, 4, &schema);
        sync.delete(&k1, &vec![Value::I64(5)])
    });
    assert_eq!(result, Err(Error::IndexDataDeleteSyncConflict));
    // The aborted transaction left the store untouched: no posting list and
    // no stray touch marker.
    assert_eq!(db.iter().count(), 0);
    assert!(db.scan_prefix(b"temp_index/").next().is_none());
}

#[test]
fn delete_against_empty_posting_list_fails_and_writes_nothing() {
    let db = sled::Config::new().temporary(true).open().unwrap();
    let schema = bar_schema();
    let k1 = b"k1".to_vec();
    let key5 = build_index_key("Bar", "idx_id", Value::I64(5)).unwrap();
    // A present but empty posting list: the empty list serializes to the
    // empty byte string.
    db.insert(&key5, serialize_posting_list(&Vec::new())).unwrap();
    let result = run(&db, |tx| {
        let sync = IndexSync::from_schema(tx, 4, &schema);
        sync.delete(&k1, &vec![Value::I64(5)])
    });
    assert_eq!(result, Err(Error::IndexDataDeleteSyncConflict));
    // The store is unmodified: the empty list is untouched and no touch
    // marker appeared.
    assert_eq!(db.get(&key5).unwrap().unwrap().to_vec(), Vec::<u8>::new());
    assert_eq!(db.iter().count(), 1);
    assert!(db.scan_prefix(b"temp_index/").next().is_none());
}

#[test]
fn new_reads_visible_schema() {
    let db = sled::Config::new().temporary(true).open().unwrap();
    let schema = bar_schema();
    let schema_value =
        serialize_posting_list(&vec![Snapshot::new(1, encode_schema(&schema))]);
    db.insert(build_schema_key("Bar"), schema_value).unwrap();
    let k1 = b"k1".to_vec();
    let key5 = build_index_key("Bar", "idx_id", Value::I64(5)).unwrap();
    run(&db, |tx| {
        let sync = IndexSync::new(tx, 2, "Bar")?;
        assert_eq!(sync.txid, 2);
        assert_eq!(sync.table_name, "Bar".to_owned());
        assert_eq!(sync.columns, vec!["id".to_owned()]);
        assert_eq!(sync.indexes, schema.indexes);
        sync.insert(&k1, &vec![Value::I64(5)])
    })
    .unwrap();
    let stored = db.get(&key5).unwrap().unwrap().to_vec();
    assert_eq!(
        stored,
        serialize_posting_list(&vec![Snapshot::new(2, k1.clone())])
    );
}

#[test]
fn new_fails_when_table_is_missing_or_invisible() {
    let db = sled::Config::new().temporary(true).open().unwrap();
    let missing = run(&db, |tx| IndexSync::new(tx, 2, "Bar").map(|_| ()));
    assert_eq!(missing, Err(Error::TableNotFoundOnConflict));

    // A schema created by a later transaction is invisible to this one.
    let schema_value =
        serialize_posting_list(&vec![Snapshot::new(5, encode_schema(&bar_schema()))]);
    db.insert(build_schema_key("Bar"), schema_value).unwrap();
    let invisible = run(&db, |tx| IndexSync::new(tx, 2, "Bar").map(|_| ()));
    assert_eq!(invisible, Err(Error::TableNotFoundOnConflict));
    let visible = run(&db, |tx| IndexSync::new(tx, 5, "Bar").map(|_| ()));
    assert_eq!(visible, Ok(()));
}

#[test]
fn corrupt_stored_posting_list_aborts_insert() {
    let db = sled::Config::new().temporary(true).open().unwrap();
    let schema = bar_schema();
    let key5 = build_index_key("Bar", "idx_id", Value::I64(5)).unwrap();
    db.insert(&key5, vec![1u8, 2, 3]).unwrap();
    let result = run(&db, |tx| {
        let sync = IndexSync::from_schema(tx, 1, &schema);
        sync.insert(&b"k1".to_vec(), &vec![Value::I64(5)])
    });
    assert_eq!(result, Err(Error::SerializationError));
}

#[test]
fn unencodable_index_value_aborts_with_encoding_error() {
    let db = sled::Config::new().temporary(true).open().unwrap();
    let schema = bar_schema();
    let result = run(&db, |tx| {
        let sync = IndexSync::from_schema(tx, 1, &schema);
        sync.insert(&b"k1".to_vec(), &vec![Value::Null])
    });
    assert_eq!(result, Err(Error::EncodingError));
    // A row that lacks the indexed column fails the same way.
    let result = run(&db, |tx| {
        let sync = IndexSync::from_schema(tx, 1, &schema);
        sync.insert(&b"k1".to_vec(), &Vec::new())
    });
    assert_eq!(result, Err(Error::EncodingError));
    assert_eq!(db.iter().count(), 0);
}
