use vstd::prelude::*;
use ed25519_dalek::{Signer, Verifier};
use crate::types::ChainError;

verus! {

/// Whether 32 bytes are the compressed form of an Ed25519 curve point, the
/// test that `ed25519_dalek::VerifyingKey::from_bytes` makes.
pub uninterp spec fn ed25519_point_valid(bytes: Seq<u8>) -> bool;

/// Whether `sig` is a valid Ed25519 signature of `msg` under the public key
/// `key`, as `ed25519_dalek::VerifyingKey::verify` decides it.
pub uninterp spec fn ed25519_verifies(key: Seq<u8>, msg: Seq<u8>, sig: Seq<u8>) -> bool;

/// The public key of the Ed25519 secret key `secret`, as
/// `ed25519_dalek::SigningKey::verifying_key` derives it.
pub uninterp spec fn ed25519_public_of(secret: Seq<u8>) -> Seq<u8>;

/// The Ed25519 signature of `msg` under the secret key `secret`, as
/// `ed25519_dalek::SigningKey::sign` computes it.
pub uninterp spec fn ed25519_signature_of(secret: Seq<u8>, msg: Seq<u8>) -> Seq<u8>;

/// Relies on `ed25519_dalek::SigningKey::generate` with the operating
/// system's generator: a fresh random secret key, as its 32 bytes.
#[verifier::external_body]
fn fresh_secret_key() -> (r: [u8; 32]) {
    ed25519_dalek::SigningKey::generate(&mut rand::rngs::OsRng).to_bytes()
}

/// Relies on `ed25519_dalek::SigningKey::verifying_key`: the public key of a
/// secret key, whose compressed bytes are a curve point.
#[verifier::external_body]
fn public_key_of(secret: &[u8; 32]) -> (r: [u8; 32])
    ensures
        r@ == ed25519_public_of(secret@),
        ed25519_point_valid(r@),
{
    ed25519_dalek::SigningKey::from_bytes(secret).verifying_key().to_bytes()
}

/// Relies on `ed25519_dalek::SigningKey::sign`: the deterministic Ed25519
/// signature of `msg`, which verifies under the key's own public key.
#[verifier::external_body]
fn signature_of(secret: &[u8; 32], msg: &[u8]) -> (r: [u8; 64])
    ensures
        r@ == ed25519_signature_of(secret@, msg@),
        ed25519_verifies(ed25519_public_of(secret@), msg@, r@),
{
    ed25519_dalek::SigningKey::from_bytes(secret).sign(msg).to_bytes()
}

/// Relies on `ed25519_dalek::VerifyingKey::from_bytes`: it succeeds exactly
/// when the bytes decompress to a curve point.
#[verifier::external_body]
fn key_decodes(b: &[u8; 32]) -> (r: bool)
    ensures
        r == ed25519_point_valid(b@),
{
    ed25519_dalek::VerifyingKey::from_bytes(b).is_ok()
}

/// Relies on `ed25519_dalek::VerifyingKey::verify`: whether `sig` is a valid
/// signature of `msg` under the public key `key` (false where `key` is no
/// curve point).
#[verifier::external_body]
fn signature_verifies(key: &[u8; 32], msg: &[u8], sig: &[u8; 64]) -> (r: bool)
    ensures
        r == ed25519_verifies(key@, msg@, sig@),
{
    match ed25519_dalek::VerifyingKey::from_bytes(key) {
        Ok(vk) => vk.verify(msg, &ed25519_dalek::Signature::from_bytes(sig)).is_ok(),
        Err(_) => false,
    }
}

fn copy_to_array<const N: usize>(b: &[u8]) -> (r: [u8; N])
    requires
        b@.len() == N,
    ensures
        r@ == b@,
{
    let mut a: [u8; N] = [0u8; N];
    let mut i: usize = 0;
    while i < N
        invariant
            b@.len() == N,
            a@.len() == N,
            i <= N,
            forall|j: int| 0 <= j < i ==> a@[j] == b@[j],
        decreases N - i,
    {
        a[i] = b[i];
        i += 1;
    }
    assert(a@ =~= b@);
    a
}

/// An Ed25519 signing key, held as its 32 secret bytes.
pub struct Keypair {
    secret: [u8; 32],
}

impl Keypair {
    /// The 32 secret bytes.
    pub closed spec fn secret_view(&self) -> Seq<u8> {
        self.secret@
    }

    /// A fresh key from the operating system's random generator.
    pub fn generate() -> (r: Self) {
        Keypair { secret: fresh_secret_key() }
    }

    /// The 32 bytes of the public key: the same on every call, and a curve
    /// point.
    pub fn public(&self) -> (r: Vec<u8>)
        ensures
            r@ == ed25519_public_of(self.secret_view()),
            r@.len() == 32,
            ed25519_point_valid(r@),
    {
        let b = public_key_of(&self.secret);
        vstd::slice::slice_to_vec(&b)
    }

    /// The 64-byte signature of `msg`: the same for the same key and message,
    /// and valid under `public()`.
    pub fn sign(&self, msg: &[u8]) -> (r: Vec<u8>)
        ensures
            r@ == ed25519_signature_of(self.secret_view(), msg@),
            r@.len() == 64,
            ed25519_verifies(ed25519_public_of(self.secret_view()), msg@, r@),
    {
        let b = signature_of(&self.secret, msg);
        vstd::slice::slice_to_vec(&b)
    }
}

/// Checks an Ed25519 signature. The key must be 32 bytes that decode to a
/// curve point, else `InvalidKey`; the signature must be 64 bytes and verify,
/// else `InvalidSignature`.
pub fn verify(public: &[u8], msg: &[u8], sig: &[u8]) -> (r: Result<(), ChainError>)
    ensures
        public@.len() != 32 ==> r == Err::<(), ChainError>(ChainError::InvalidKey),
        public@.len() == 32 ==> (r == Err::<(), ChainError>(ChainError::InvalidKey)
            <==> !ed25519_point_valid(public@)),
        public@.len() == 32 && ed25519_point_valid(public@) && sig@.len() != 64 ==> r == Err::<
            (),
            ChainError,
        >(ChainError::InvalidSignature),
        public@.len() == 32 && ed25519_point_valid(public@) && sig@.len() == 64 ==> (r is Ok
            <==> ed25519_verifies(public@, msg@, sig@)),
        r is Ok ==> public@.len() == 32 && ed25519_point_valid(public@) && sig@.len() == 64,
        r matches Err(e) ==> e == ChainError::InvalidKey || e == ChainError::InvalidSignature,
{
    if public.len() != 32 {
        return Err(ChainError::InvalidKey);
    }
    let key_bytes: [u8; 32] = copy_to_array(public);
    if !key_decodes(&key_bytes) {
        return Err(ChainError::InvalidKey);
    }
    if sig.len() != 64 {
        return Err(ChainError::InvalidSignature);
    }
    let sig_bytes: [u8; 64] = copy_to_array(sig);
    if signature_verifies(&key_bytes, msg, &sig_bytes) {
        Ok(())
    } else {
        Err(ChainError::InvalidSignature)
    }
}

} // verus!

