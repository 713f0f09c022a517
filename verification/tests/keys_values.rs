use index_sync::error::Error;
use index_sync::keys::{build_index_key, build_index_key_prefix, build_temp_index_key};
use index_sync::value::Value;

#[test]
fn prefix_is_fixed_separator_scheme() {
    assert_eq!(
        build_index_key_prefix("Bar", "idx_id"),
        b"index/Bar/idx_id/".to_vec()
    );
}

#[test]
fn integer_key_bytes_are_exact() {
    let key = build_index_key("Bar", "idx_id", Value::I64(5)).unwrap();
    let mut expected = b"index/Bar/idx_id/".to_vec();
    expected.push(2);
    expected.extend_from_slice(&[0x80, 0, 0, 0, 0, 0, 0, 5]);
    assert_eq!(key, expected);
}

#[test]
fn key_order_follows_value_order() {
    let t = "Bar";
    let i = "idx_id";
    let key = |v: Value| build_index_key(t, i, v).unwrap();
    // Integers, across the sign boundary.
    assert!(key(Value::I64(5)) < key(Value::I64(7)));
    assert!(key(Value::I64(-3)) < key(Value::I64(4)));
    assert!(key(Value::I64(i64::MIN)) < key(Value::I64(i64::MAX)));
    // Booleans: false before true.
    assert!(key(Value::Bool(false)) < key(Value::Bool(true)));
    // Text: byte-wise, a prefix before its extensions.
    assert!(key(Value::Str("abc".to_owned())) < key(Value::Str("abd".to_owned())));
    assert!(key(Value::Str("ab".to_owned())) < key(Value::Str("abc".to_owned())));
}

#[test]
fn keys_share_the_index_prefix() {
    let prefix = build_index_key_prefix("Bar", "idx_id");
    let key = build_index_key("Bar", "idx_id", Value::I64(42)).unwrap();
    assert!(key.starts_with(&prefix));
}

#[test]
fn null_has_no_order_preserving_encoding() {
    assert_eq!(
        build_index_key("Bar", "idx_id", Value::Null),
        Err(Error::EncodingError)
    );
    assert_eq!(
        Value::Null.to_order_preserving_bytes(),
        Err(Error::EncodingError)
    );
}

#[test]
fn encodable_values_round_their_tags() {
    assert_eq!(
        Value::Bool(true).to_order_preserving_bytes().unwrap(),
        vec![1, 1]
    );
    assert_eq!(
        Value::Str("id".to_owned()).to_order_preserving_bytes().unwrap(),
        vec![3, b'i', b'd']
    );
}

#[test]
fn temp_index_key_embeds_txid_and_index_key() {
    let index_key = b"index/Bar/idx_id/x".to_vec();
    let marker = build_temp_index_key(7, &index_key);
    let mut expected = b"temp_index/".to_vec();
    expected.extend_from_slice(&[0, 0, 0, 0, 0, 0, 0, 7]);
    expected.push(b'/');
    expected.extend_from_slice(&index_key);
    assert_eq!(marker, expected);
}
