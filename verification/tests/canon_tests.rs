use oracle_omen::canon::{CanonValue, canonical_serialize};

#[test]
fn canonical_bytes_are_stable() {
    let v1 = CanonValue::List(vec![
        CanonValue::U64(7),
        CanonValue::Text(b"hello".to_vec()),
        CanonValue::Bool(true),
    ]);
    let v2 = CanonValue::List(vec![
        CanonValue::U64(7),
        CanonValue::Text(b"hello".to_vec()),
        CanonValue::Bool(true),
    ]);
    assert_eq!(canonical_serialize(&v1), canonical_serialize(&v2));
}

#[test]
fn canonical_bytes_distinguish_values() {
    let a = canonical_serialize(&CanonValue::U64(1));
    let b = canonical_serialize(&CanonValue::U64(2));
    assert_ne!(a, b);
    let t = canonical_serialize(&CanonValue::Text(vec![0, 1]));
    let r = canonical_serialize(&CanonValue::Blob(vec![0, 1]));
    assert_ne!(t, r);
}

#[test]
fn canonical_hashes_follow_bytes() {
    let v = CanonValue::Object(vec![
        (b"a".to_vec(), CanonValue::I64(-1)),
        (b"b".to_vec(), CanonValue::Null),
    ]);
    let h1 = oracle_omen::hashes::Hash::from_canonical(&v);
    let bytes = canonical_serialize(&v);
    let h2 = oracle_omen::hashes::Hash::from_bytes(&bytes);
    assert_eq!(h1, h2);
}

#[test]
fn canonical_round_trip() {
    // Reading the canonical bytes back yields the value, nested maps and
    // lists included.
    let v = CanonValue::Object(vec![
        (b"items".to_vec(), CanonValue::List(vec![
            CanonValue::U64(1),
            CanonValue::I64(-5),
            CanonValue::Text(b"x".to_vec()),
        ])),
        (b"ok".to_vec(), CanonValue::Bool(true)),
        (b"ref".to_vec(), CanonValue::Blob(vec![9, 9])),
        (b"z".to_vec(), CanonValue::Null),
    ]);
    let bytes = canonical_serialize(&v);
    let back = oracle_omen::canon::canonical_deserialize(&bytes).unwrap();
    assert_eq!(back, v);
}

#[test]
fn truncated_canonical_bytes_are_refused() {
    let v = CanonValue::U64(7);
    let mut bytes = canonical_serialize(&v);
    bytes.pop();
    assert!(oracle_omen::canon::canonical_deserialize(&bytes).is_none());
}
