use oracle_omen::hashes::combine_hashes;

#[test]
fn test_hash_stable() {
    let data = b"test data";
    let h1 = oracle_omen::hashes::Hash::from_bytes(data);
    let h2 = oracle_omen::hashes::Hash::from_bytes(data);
    assert_eq!(h1, h2);
}

#[test]
fn test_hash_different() {
    let h1 = oracle_omen::hashes::Hash::from_bytes(b"data1");
    let h2 = oracle_omen::hashes::Hash::from_bytes(b"data2");
    assert_ne!(h1, h2);
}

#[test]
fn test_hash_roundtrip() {
    let h1 = oracle_omen::hashes::Hash::from_bytes(b"test");
    let hex = h1.to_hex();
    let h2 = oracle_omen::hashes::Hash::from_hex(hex.as_str()).unwrap();
    assert_eq!(h1, h2);
}

#[test]
fn test_hash_zero() {
    let h = oracle_omen::hashes::Hash::zero();
    assert!(h.is_zero());
    assert_eq!(h.to_hex(), "0".repeat(64));
}

#[test]
fn test_combine_hashes() {
    let h1 = oracle_omen::hashes::Hash::from_bytes(b"first");
    let h2 = oracle_omen::hashes::Hash::from_bytes(b"second");
    let combined = combine_hashes(&[h1.clone(), h2.clone()]);
    let reversed = combine_hashes(&[h2, h1]);
    assert_ne!(combined, reversed);
}

#[test]
fn test_invalid_hex() {
    assert!(oracle_omen::hashes::Hash::from_hex("not a hash").is_err());
    assert!(oracle_omen::hashes::Hash::from_hex(&"ab".repeat(16)).is_err());
}

#[test]
fn blake3_digest_matches_reference() {
    // The digest of the empty input, as the reference implementation
    // publishes it.
    let h = oracle_omen::hashes::Hash::from_bytes(b"");
    assert_eq!(
        h.to_hex(),
        "af1349b9f5f9a1a6a0404dea36dcc9499bcb25c9adc112b7cc9a93cae41f3262"
    );
}

#[test]
fn hex_uses_lowercase_pairs() {
    let h = oracle_omen::hashes::Hash::from_raw([0xabu8; 32]);
    assert_eq!(h.to_hex(), "ab".repeat(32));
}
