use vstd::prelude::*;

verus! {

/// The digest that `blake3::hash` computes for a byte string.
pub uninterp spec fn blake3_of(bytes: Seq<u8>) -> Seq<u8>;

/// Why an operation of the chain core failed.
#[derive(Clone, Copy, Debug, PartialEq, Eq, Structural)]
pub enum ChainError {
    /// A contract was called with a method it does not define.
    UnknownMethod,
    /// The state store could not read or write; the in-memory store never
    /// reports it.
    StoreFault,
    /// A public key that is not 32 bytes or not a curve point.
    InvalidKey,
    /// A signature that is not 64 bytes or does not verify.
    InvalidSignature,
}

/// A 32-byte digest.
#[derive(Clone, Copy, Debug, Default, PartialEq, Eq, Hash)]
pub struct Hash(pub [u8; 32]);

impl View for Hash {
    type V = Seq<u8>;

    open spec fn view(&self) -> Seq<u8> {
        self.0@
    }
}

/// The all-zero digest as a byte sequence.
pub open spec fn zero_digest() -> Seq<u8> {
    Seq::new(32, |i: int| 0u8)
}

impl Hash {
    /// The all-zero digest: "no parent", and the root of a store that was
    /// never written.
    pub fn zero() -> (r: Self)
        ensures
            r@ == zero_digest(),
    {
        let r = Hash([0u8; 32]);
        assert(r@ =~= zero_digest());
        r
    }
}

/// A built-in contract. The set is closed: a new contract is a new variant.
#[derive(Clone, Copy, Debug, PartialEq, Eq, Structural)]
pub enum ContractId {
    OwnershipToken,
    PopularityToken,
}

/// What a transaction asks for.
#[derive(Clone, Debug)]
pub enum TxPayload {
    /// Move `amount` to the account with public key `to`.
    Transfer { to: Vec<u8>, amount: u128 },
    /// Call `method` of a built-in contract; `args` is JSON text.
    Call { contract: ContractId, method: String, args: String },
}

/// A signed transaction.
#[derive(Clone, Debug)]
pub struct Tx {
    /// The sender's public key.
    pub from: Vec<u8>,
    pub nonce: u64,
    pub payload: TxPayload,
    pub signature: Vec<u8>,
}

/// The header of a block.
#[derive(Clone, Debug)]
pub struct BlockHeader {
    pub height: u64,
    pub prev_hash: Hash,
    pub state_root: Hash,
    pub tx_root: Hash,
    pub timestamp_ms: u64,
    pub proposer: Vec<u8>,
}

/// A block: its header and its transactions, in the order they were applied.
#[derive(Clone, Debug)]
pub struct Block {
    pub header: BlockHeader,
    pub txs: Vec<Tx>,
}

/// Relies on `blake3::hash`: the 32-byte BLAKE3 digest of `bytes`, which
/// depends on the bytes alone.
#[verifier::external_body]
pub fn blake3_hash(bytes: &[u8]) -> (r: Hash)
    ensures
        r@ == blake3_of(bytes@),
{
    Hash(*blake3::hash(bytes).as_bytes())
}

} // verus!
