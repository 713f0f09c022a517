use index_sync::error::Error;
use index_sync::posting::{delete_postings, deserialize_posting_list, insert_posting,
    postings_of_stored, serialize_posting_list};
use index_sync::schema::{decode_schema, encode_schema, schema_of_stored, Schema, SchemaIndex};
use index_sync::snapshot::Snapshot;

#[test]
fn posting_list_round_trip() {
    let list = vec![
        Snapshot::new(1, b"k1".to_vec()),
        Snapshot {
            created_by: 2,
            deleted_by: Some(5),
            data: b"another key".to_vec(),
        },
        Snapshot::new(9, Vec::new()),
    ];
    let bytes = serialize_posting_list(&list);
    let back = deserialize_posting_list(&bytes).unwrap();
    assert_eq!(back, list);
}

#[test]
fn empty_posting_list_is_empty_bytes() {
    let bytes = serialize_posting_list(&Vec::new());
    assert!(bytes.is_empty());
    let back = deserialize_posting_list(&Vec::new()).unwrap();
    assert!(back.is_empty());
}

#[test]
fn corrupt_posting_list_is_rejected() {
    // Too short for a record header.
    assert_eq!(
        deserialize_posting_list(&vec![1, 2, 3]),
        Err(Error::SerializationError)
    );
    // A bad tombstone flag.
    let mut bytes = serialize_posting_list(&vec![Snapshot::new(1, b"k".to_vec())]);
    bytes[8] = 9;
    assert_eq!(deserialize_posting_list(&bytes), Err(Error::SerializationError));
    // A payload length pointing past the end.
    let mut bytes = serialize_posting_list(&vec![Snapshot::new(1, b"k".to_vec())]);
    let n = bytes.len();
    bytes[n - 2] = 255;
    assert_eq!(deserialize_posting_list(&bytes), Err(Error::SerializationError));
}

#[test]
fn insert_then_delete_leaves_no_visible_posting() {
    let mut list = vec![Snapshot {
        created_by: 1,
        deleted_by: Some(2),
        data: b"k1".to_vec(),
    }];
    insert_posting(&mut list, 7, &b"k1".to_vec());
    let list = delete_postings(&list, 7, &b"k1".to_vec());
    for rec in &list {
        assert!(rec.get(7, false).is_none());
        assert!(rec.get(9, false).is_none());
    }
}

#[test]
fn delete_postings_tombstones_only_matches() {
    let list = vec![
        Snapshot::new(1, b"k1".to_vec()),
        Snapshot::new(2, b"k2".to_vec()),
        Snapshot {
            created_by: 1,
            deleted_by: Some(2),
            data: b"k1".to_vec(),
        },
    ];
    let out = delete_postings(&list, 5, &b"k1".to_vec());
    assert_eq!(out[0].deleted_by, Some(5));
    assert_eq!(out[1].deleted_by, None);
    // Already dead at 5: the old marker stays.
    assert_eq!(out[2].deleted_by, Some(2));
}

fn sample_schema() -> Schema {
    Schema {
        table_name: "Bar".to_owned(),
        column_names: vec!["id".to_owned(), "name".to_owned()],
        indexes: vec![
            SchemaIndex {
                name: "idx_id".to_owned(),
                expr: "id".to_owned(),
            },
            SchemaIndex {
                name: "idx_name".to_owned(),
                expr: "name".to_owned(),
            },
        ],
    }
}

#[test]
fn schema_round_trip() {
    let schema = sample_schema();
    let bytes = encode_schema(&schema);
    let back = decode_schema(&bytes).unwrap();
    assert_eq!(back, schema);
}

#[test]
fn corrupt_schema_is_rejected() {
    assert_eq!(decode_schema(&vec![0, 1, 2]), Err(Error::SerializationError));
    let mut bytes = encode_schema(&sample_schema());
    bytes.push(0);
    assert_eq!(decode_schema(&bytes), Err(Error::SerializationError));
    // A field claiming to be longer than the buffer.
    let mut bytes = encode_schema(&sample_schema());
    bytes[7] = 255;
    assert_eq!(decode_schema(&bytes), Err(Error::SerializationError));
}

#[test]
fn snapshot_visibility() {
    let rec = Snapshot::new(5, b"k".to_vec());
    assert_eq!(rec.get(4, false), None);
    assert_eq!(rec.get(5, false), Some(b"k".to_vec()));
    assert_eq!(rec.get(4, true), Some(b"k".to_vec()));
    let dead = rec.delete(6);
    assert_eq!(dead.get(5, false), Some(b"k".to_vec()));
    assert_eq!(dead.get(6, false), None);
    assert_eq!(dead.get(6, true), None);
    // A second delete overwrites the marker: last write wins.
    let redead = dead.delete(9);
    assert_eq!(redead.deleted_by, Some(9));
}

#[test]
fn postings_of_stored_decides_the_read_side() {
    // Insert path: absent means empty.
    assert_eq!(postings_of_stored(None, false), Ok(Vec::new()));
    // Delete path: absent and empty both mean the structural conflict.
    assert_eq!(
        postings_of_stored(None, true),
        Err(Error::IndexDataDeleteSyncConflict)
    );
    assert_eq!(
        postings_of_stored(Some(Vec::new()), true),
        Err(Error::IndexDataDeleteSyncConflict)
    );
    // A stored list is handed back as its records; corrupt bytes fail.
    let list = vec![Snapshot::new(3, b"k".to_vec())];
    let bytes = serialize_posting_list(&list);
    assert_eq!(postings_of_stored(Some(bytes), true), Ok(list));
    assert_eq!(
        postings_of_stored(Some(vec![9, 9]), false),
        Err(Error::SerializationError)
    );
}

#[test]
fn schema_of_stored_decides_visibility_and_shape() {
    let schema = sample_schema();
    let record = |created: u64| {
        serialize_posting_list(&vec![Snapshot::new(created, encode_schema(&schema))])
    };
    // Absent value: the table is missing.
    assert_eq!(schema_of_stored(None, 2), Err(Error::TableNotFoundOnConflict));
    // A record created later than the reader is invisible.
    assert_eq!(
        schema_of_stored(Some(record(5)), 2),
        Err(Error::TableNotFoundOnConflict)
    );
    // A visible record yields the schema it carries.
    assert_eq!(schema_of_stored(Some(record(1)), 2), Ok(sample_schema()));
    // Corrupt bytes, and a value that is not a one-record list, are corrupt.
    assert_eq!(
        schema_of_stored(Some(vec![1, 2, 3]), 2),
        Err(Error::SerializationError)
    );
    let two = serialize_posting_list(&vec![
        Snapshot::new(1, encode_schema(&schema)),
        Snapshot::new(1, encode_schema(&schema)),
    ]);
    assert_eq!(schema_of_stored(Some(two), 2), Err(Error::SerializationError));
}
