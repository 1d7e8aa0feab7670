use greydio::types::blake3_hash;

#[test]
fn zero_hash_is_all_zero() {
    assert_eq!(greydio::types::Hash::zero().0, [0u8; 32]);
}

#[test]
fn blake3_hash_matches_blake3() {
    assert_eq!(blake3_hash(b"abc").0, *blake3::hash(b"abc").as_bytes());
    assert_ne!(blake3_hash(b"").0, [0u8; 32]);
}
