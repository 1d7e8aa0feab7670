use vstd::prelude::*;
use crate::codec::{encode_header, encode_txs, header_bytes, tx_list_bytes};
use crate::contracts::{ack_text, Contract, OwnershipToken, PopularityToken};
use crate::smt::{root_of, NaiveSparseMerkle, SparseMerkle};
use crate::types::{blake3_hash, blake3_of, zero_digest, Block, BlockHeader, ChainError, ContractId, Tx, TxPayload};

verus! {

/// Whether the contract `c` defines `method`.
pub open spec fn method_accepted(c: ContractId, method: Seq<char>) -> bool {
    match c {
        ContractId::OwnershipToken => OwnershipToken.accepts(method),
        ContractId::PopularityToken => PopularityToken.accepts(method),
    }
}

/// Whether applying `tx` succeeds: a transfer always does, a call does when
/// its contract defines the method.
pub open spec fn tx_applies(tx: Tx) -> bool {
    match tx.payload {
        TxPayload::Transfer { .. } => true,
        TxPayload::Call { contract, method, .. } => method_accepted(contract, method@),
    }
}

/// Whether every transaction of `txs` applies.
pub open spec fn all_apply(txs: Seq<Tx>) -> bool {
    forall|i: int| 0 <= i < txs.len() ==> tx_applies(#[trigger] txs[i])
}

/// The chain state: the state store, the digest of the last block header
/// (the tip) and the number of blocks built (the height).
pub struct Ledger<S: SparseMerkle> {
    state: S,
    tip: crate::types::Hash,
    height: u64,
}

impl<S: SparseMerkle> Ledger<S> {
    /// Whether `other` holds the same contents, tip and height as `self`.
    pub open spec fn same_position(&self, other: &Self) -> bool {
        &&& self.contents() == other.contents()
        &&& self.tip_view() == other.tip_view()
        &&& self.height_view() == other.height_view()
    }

    /// The ledger's internal invariant.
    pub closed spec fn wf(&self) -> bool {
        self.state.wf()
    }

    /// The key/value contents of the state store.
    pub closed spec fn contents(&self) -> Map<Seq<u8>, Seq<u8>> {
        self.state.contents()
    }

    /// The root digest of the state store.
    pub open spec fn state_root(&self) -> Seq<u8> {
        root_of(self.contents())
    }

    /// The digest of the last block header, or zero before the first block.
    pub closed spec fn tip_view(&self) -> Seq<u8> {
        self.tip@
    }

    /// The number of blocks built.
    pub closed spec fn height_view(&self) -> u64 {
        self.height
    }

    /// A ledger at genesis over `state`: tip zero, height zero.
    pub fn new(state: S) -> (r: Self)
        requires
            state.wf(),
        ensures
            r.wf(),
            r.contents() == state.contents(),
            r.tip_view() == zero_digest(),
            r.height_view() == 0,
    {
        Ledger { state, tip: crate::types::Hash::zero(), height: 0 }
    }

    fn call_contract(&mut self, id: &ContractId, method: &str, args: &str) -> (r: Result<
        String,
        ChainError,
    >)
        requires
            old(self).wf(),
        ensures
            final(self).wf(),
            final(self).same_position(&*old(self)),
            r is Ok <==> method_accepted(*id, method@),
            r matches Ok(v) ==> v@ == ack_text(),
            r matches Err(e) ==> e == ChainError::UnknownMethod,
    {
        match id {
            ContractId::OwnershipToken => OwnershipToken.call(&mut self.state, method, args),
            ContractId::PopularityToken => PopularityToken.call(&mut self.state, method, args),
        }
    }

    /// Applies one transaction. Transfers are accepted as they stand; a call
    /// is dispatched to its contract, and the contract's failure is returned.
    pub fn apply_tx(&mut self, tx: &Tx) -> (r: Result<(), ChainError>)
        requires
            old(self).wf(),
        ensures
            final(self).wf(),
            final(self).same_position(&*old(self)),
            r is Ok <==> tx_applies(*tx),
            r matches Err(e) ==> e == ChainError::UnknownMethod,
    {
        match &tx.payload {
            TxPayload::Transfer { .. } => Ok(()),
            TxPayload::Call { contract, method, args } => {
                match self.call_contract(contract, method.as_str(), args.as_str()) {
                    Ok(_) => Ok(()),
                    Err(e) => Err(e),
                }
            },
        }
    }

    /// Applies `txs` in order and, if all of them apply, seals them into the
    /// next block and makes its header the new tip. If one fails, nothing
    /// changes and its error is returned.
    pub fn build_block(&mut self, txs: Vec<Tx>, proposer: Vec<u8>, timestamp_ms: u64) -> (r:
        Result<Block, ChainError>)
        requires
            old(self).wf(),
            old(self).height_view() < u64::MAX,
        ensures
            final(self).wf(),
            r is Ok <==> all_apply(txs@),
            match r {
                Ok(b) => {
                    &&& b.txs@ == txs@
                    &&& b.header.height == old(self).height_view() + 1
                    &&& b.header.prev_hash@ == old(self).tip_view()
                    &&& b.header.state_root@ == final(self).state_root()
                    &&& b.header.tx_root@ == blake3_of(tx_list_bytes(txs@))
                    &&& b.header.timestamp_ms == timestamp_ms
                    &&& b.header.proposer == proposer
                    &&& final(self).contents() == old(self).contents()
                    &&& final(self).tip_view() == blake3_of(header_bytes(b.header))
                    &&& final(self).height_view() == old(self).height_view() + 1
                },
                Err(e) => {
                    &&& e == ChainError::UnknownMethod
                    &&& final(self).same_position(&*old(self))
                },
            },
    {
        let mut i: usize = 0;
        while i < txs.len()
            invariant
                self.same_position(&*old(self)),
                self.wf(),
                i <= txs@.len(),
                forall|j: int| 0 <= j < i ==> tx_applies(#[trigger] txs@[j]),
            decreases txs.len() - i,
        {
            match self.apply_tx(&txs[i]) {
                Ok(()) => {},
                Err(e) => {
                    return Err(e);
                },
            }
            i += 1;
        }
        let tx_root = blake3_hash(encode_txs(&txs).as_slice());
        let header = BlockHeader {
            height: self.height + 1,
            prev_hash: self.tip,
            state_root: self.state.get_root(),
            tx_root,
            timestamp_ms,
            proposer,
        };
        self.tip = blake3_hash(encode_header(&header).as_slice());
        self.height = self.height + 1;
        Ok(Block { header, txs })
    }

    /// The digest of the last block header.
    pub fn tip(&self) -> (r: crate::types::Hash)
        ensures
            r@ == self.tip_view(),
    {
        self.tip
    }

    /// The number of blocks built.
    pub fn height(&self) -> (r: u64)
        ensures
            r == self.height_view(),
    {
        self.height
    }
}

impl Default for Ledger<NaiveSparseMerkle> {
    fn default() -> (r: Self)
        ensures
            r.wf(),
            r.contents() == Map::<Seq<u8>, Seq<u8>>::empty(),
            r.tip_view() == zero_digest(),
            r.height_view() == 0,
    {
        Ledger::new(NaiveSparseMerkle::default())
    }
}

/// An empty batch always applies, so building an empty block succeeds (and,
/// by `build_block`, still advances the height and the tip).
pub proof fn lemma_empty_batch_applies()
    ensures
        all_apply(Seq::<Tx>::empty()),
{
}

/// A batch that holds a transaction that does not apply does not apply as a
/// whole: `build_block` over it fails and leaves the ledger, tip, height and
/// state root included, as it was.
pub proof fn lemma_failing_tx_fails_batch(txs: Seq<Tx>, i: int)
    requires
        0 <= i < txs.len(),
        !tx_applies(txs[i]),
    ensures
        !all_apply(txs),
{
}

/// Reading the tip or the height twice with no write in between gives the
/// same answer: both reads are determined by the ledger alone.
pub proof fn lemma_reads_repeat<S: SparseMerkle>(l: Ledger<S>, tip1: Seq<u8>, tip2: Seq<u8>, h1: u64, h2: u64)
    requires
        tip1 == l.tip_view(),
        tip2 == l.tip_view(),
        h1 == l.height_view(),
        h2 == l.height_view(),
    ensures
        tip1 == tip2,
        h1 == h2,
{
}

} // verus!
