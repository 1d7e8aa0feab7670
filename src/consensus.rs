use vstd::prelude::*;
use crate::codec::{header_bytes, tx_list_bytes};
use crate::ledger::{all_apply, Ledger};
use crate::smt::SparseMerkle;
use crate::types::{blake3_of, Block, ChainError, Tx};
use std::collections::VecDeque;

verus! {

/// The most transactions one block takes; the rest wait for the next tick.
pub const MAX_BLOCK_TXS: usize = 10000;

/// The period of the block-production loop.
pub const BLOCK_INTERVAL_MS: u64 = 1000;

/// Counters that the production loop keeps for readers.
#[derive(Clone, Copy, Debug, PartialEq, Eq, Structural)]
pub struct ChainStats {
    /// Timestamp of the last block built, or zero before the first.
    pub last_block_ts: u64,
    /// Number of blocks built, wrapping at the type's limit.
    pub block_count: u64,
}

impl ChainStats {
    pub fn new() -> (r: Self)
        ensures
            r.last_block_ts == 0,
            r.block_count == 0,
    {
        ChainStats { last_block_ts: 0, block_count: 0 }
    }

    /// Records a block built at `timestamp_ms`.
    pub fn record_block(&mut self, timestamp_ms: u64)
        ensures
            final(self).last_block_ts == timestamp_ms,
            final(self).block_count == (old(self).block_count + 1) % 0x1_0000_0000_0000_0000,
    {
        self.last_block_ts = timestamp_ms;
        self.block_count = self.block_count.wrapping_add(1);
    }
}

/// Adds a transaction taken from the queue to the batch being gathered, and
/// returns whether the batch may take another.
pub fn gather(batch: &mut Vec<Tx>, tx: Tx) -> (more: bool)
    requires
        old(batch)@.len() < MAX_BLOCK_TXS,
    ensures
        final(batch)@ == old(batch)@.push(tx),
        final(batch)@.len() <= MAX_BLOCK_TXS,
        more == (final(batch)@.len() < MAX_BLOCK_TXS),
{
    batch.push(tx);
    batch.len() < MAX_BLOCK_TXS
}

/// How many transactions a drain takes from a queue of `n`: all of them, up
/// to the block cap.
pub open spec fn batch_size(n: nat) -> nat {
    if n < MAX_BLOCK_TXS {
        n
    } else {
        MAX_BLOCK_TXS as nat
    }
}

/// Takes the next block's transactions from the front of `queue`, in queue
/// order and up to the block cap; the rest stay queued for later drains.
pub fn drain_batch(queue: &mut VecDeque<Tx>) -> (batch: Vec<Tx>)
    ensures
        batch@ == old(queue)@.take(batch_size(old(queue)@.len()) as int),
        final(queue)@ == old(queue)@.skip(batch_size(old(queue)@.len()) as int),
{
    let ghost q0 = queue@;
    let mut batch: Vec<Tx> = Vec::new();
    assert(q0.take(0) =~= Seq::<Tx>::empty());
    assert(q0.skip(0) =~= q0);
    loop
        invariant_except_break
            batch@.len() < MAX_BLOCK_TXS,
        invariant
            batch@.len() <= q0.len(),
            batch@ == q0.take(batch@.len() as int),
            queue@ == q0.skip(batch@.len() as int),
        ensures
            batch@.len() == batch_size(q0.len()),
            batch@ == q0.take(batch@.len() as int),
            queue@ == q0.skip(batch@.len() as int),
        decreases queue@.len(),
    {
        let ghost k = batch@.len() as int;
        match queue.pop_front() {
            Some(tx) => {
                proof {
                    assert(q0.take(k + 1) =~= q0.take(k).push(tx));
                    assert(q0.skip(k + 1) =~= q0.skip(k).subrange(1, q0.skip(k).len() as int));
                }
                if !gather(&mut batch, tx) {
                    break;
                }
            },
            None => {
                break;
            },
        }
    }
    batch
}

/// One tick of the production loop, once the batch is gathered and the time
/// read: builds the block with no proposer and, if that succeeds, records it
/// in `stats`. A failure leaves the ledger and the counters as they were.
pub fn produce_block<S: SparseMerkle>(ledger: &mut Ledger<S>, stats: &mut ChainStats, txs: Vec<Tx>, now_ms: u64) -> (r:
    Result<Block, ChainError>)
    requires
        old(ledger).wf(),
        old(ledger).height_view() < u64::MAX,
    ensures
        final(ledger).wf(),
        r is Ok <==> all_apply(txs@),
        match r {
            Ok(b) => {
                &&& b.txs@ == txs@
                &&& b.header.height == old(ledger).height_view() + 1
                &&& b.header.prev_hash@ == old(ledger).tip_view()
                &&& b.header.state_root@ == final(ledger).state_root()
                &&& b.header.tx_root@ == blake3_of(tx_list_bytes(txs@))
                &&& b.header.timestamp_ms == now_ms
                &&& b.header.proposer@ == Seq::<u8>::empty()
                &&& final(ledger).contents() == old(ledger).contents()
                &&& final(ledger).tip_view() == blake3_of(header_bytes(b.header))
                &&& final(ledger).height_view() == old(ledger).height_view() + 1
                &&& final(stats).last_block_ts == now_ms
                &&& final(stats).block_count == (old(stats).block_count + 1)
                    % 0x1_0000_0000_0000_0000
            },
            Err(e) => {
                &&& e == ChainError::UnknownMethod
                &&& final(ledger).same_position(&*old(ledger))
                &&& *final(stats) == *old(stats)
            },
        },
{
    let r = ledger.build_block(txs, Vec::new(), now_ms);
    if r.is_ok() {
        stats.record_block(now_ms);
    }
    r
}

} // verus!
