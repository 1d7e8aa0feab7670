use greydio::status::{block_age, digest_hex, is_healthy, HEALTH_WINDOW_MS};

#[test]
fn zero_digest_hex() {
    let s = digest_hex(&greydio::types::Hash::zero());
    assert_eq!(s, format!("0x{}", "0".repeat(64)));
}

#[test]
fn digest_hex_digits() {
    let mut b = [0u8; 32];
    b[0] = 0xab;
    b[1] = 0x0f;
    b[31] = 0x10;
    let s = digest_hex(&greydio::types::Hash(b));
    assert_eq!(s.len(), 66);
    assert!(s.starts_with("0xab0f00"));
    assert!(s.ends_with("0010"));
}

#[test]
fn block_age_cases() {
    assert_eq!(block_age(0, 500), None);
    assert_eq!(block_age(100, 350), Some(250));
    assert_eq!(block_age(400, 350), Some(0));
}

#[test]
fn health_window() {
    assert_eq!(HEALTH_WINDOW_MS, 10_000);
    assert!(!is_healthy(0, 5));
    assert!(is_healthy(1000, 10_999));
    assert!(!is_healthy(1000, 11_000));
    assert!(is_healthy(5000, 10));
}
