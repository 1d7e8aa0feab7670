use greydio::crypto::{verify, Keypair};
use greydio::types::ChainError;

#[test]
fn sign_then_verify() {
    let kp = Keypair::generate();
    let pk = kp.public();
    let sig = kp.sign(b"hello");
    assert_eq!(pk.len(), 32);
    assert_eq!(sig.len(), 64);
    assert_eq!(verify(&pk, b"hello", &sig), Ok(()));
    assert_eq!(verify(&pk, b"hellO", &sig), Err(ChainError::InvalidSignature));
}

#[test]
fn verify_rejects_bad_lengths() {
    let kp = Keypair::generate();
    let pk = kp.public();
    let sig = kp.sign(b"m");
    assert_eq!(verify(&pk[..31], b"m", &sig), Err(ChainError::InvalidKey));
    assert_eq!(verify(&pk, b"m", &sig[..63]), Err(ChainError::InvalidSignature));
}
