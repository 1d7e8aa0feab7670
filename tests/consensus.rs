use greydio::consensus::{drain_batch, gather, produce_block, ChainStats, MAX_BLOCK_TXS};
use greydio::ledger::Ledger;
use greydio::smt::NaiveSparseMerkle;
use greydio::types::{ChainError, ContractId, Tx, TxPayload};
use std::collections::VecDeque;

fn transfer(nonce: u64) -> Tx {
    Tx {
        from: vec![1],
        nonce,
        payload: TxPayload::Transfer { to: vec![2], amount: 1 },
        signature: vec![],
    }
}

fn drain(queue: &mut VecDeque<Tx>) -> Vec<Tx> {
    let mut batch = Vec::new();
    while let Some(tx) = queue.pop_front() {
        if !gather(&mut batch, tx) {
            break;
        }
    }
    batch
}

#[test]
fn drain_respects_block_cap() {
    let mut queue: VecDeque<Tx> = (0..15_000u64).map(transfer).collect();
    let first = drain(&mut queue);
    assert_eq!(first.len(), 10_000);
    assert_eq!(MAX_BLOCK_TXS, 10_000);
    assert_eq!(first[0].nonce, 0);
    assert_eq!(first[9_999].nonce, 9_999);
    assert_eq!(queue.len(), 5_000);
    let second = drain(&mut queue);
    assert_eq!(second.len(), 5_000);
    assert_eq!(second[0].nonce, 10_000);
    assert!(queue.is_empty());
}

#[test]
fn gather_reports_room() {
    let mut batch = Vec::new();
    assert!(gather(&mut batch, transfer(0)));
    assert_eq!(batch.len(), 1);
}

#[test]
fn produce_block_records_stats() {
    let mut l: Ledger<NaiveSparseMerkle> = Ledger::default();
    let mut stats = ChainStats::new();
    let b = produce_block(&mut l, &mut stats, vec![transfer(0)], 1234).unwrap();
    assert!(b.header.proposer.is_empty());
    assert_eq!(b.header.timestamp_ms, 1234);
    assert_eq!(stats, ChainStats { last_block_ts: 1234, block_count: 1 });
    produce_block(&mut l, &mut stats, vec![], 2234).unwrap();
    assert_eq!(stats.block_count, 2);
    assert_eq!(l.height(), 2);
}

#[test]
fn failed_production_leaves_stats() {
    let mut l: Ledger<NaiveSparseMerkle> = Ledger::default();
    let mut stats = ChainStats::new();
    let bad = Tx {
        from: vec![],
        nonce: 0,
        payload: TxPayload::Call {
            contract: ContractId::OwnershipToken,
            method: "burn".to_string(),
            args: "{}".to_string(),
        },
        signature: vec![],
    };
    assert_eq!(
        produce_block(&mut l, &mut stats, vec![bad], 5).unwrap_err(),
        ChainError::UnknownMethod
    );
    assert_eq!(stats, ChainStats::new());
    assert_eq!(l.height(), 0);
}

#[test]
fn block_count_wraps() {
    let mut stats = ChainStats { last_block_ts: 0, block_count: u64::MAX };
    stats.record_block(9);
    assert_eq!(stats, ChainStats { last_block_ts: 9, block_count: 0 });
}

#[test]
fn drain_batch_takes_front_up_to_cap() {
    let mut queue: VecDeque<Tx> = (0..15_000u64).map(transfer).collect();
    let first = drain_batch(&mut queue);
    assert_eq!(first.len(), 10_000);
    assert_eq!(first[0].nonce, 0);
    assert_eq!(first[9_999].nonce, 9_999);
    assert_eq!(queue.len(), 5_000);
    assert_eq!(queue[0].nonce, 10_000);
    let second = drain_batch(&mut queue);
    assert_eq!(second.len(), 5_000);
    assert_eq!(second[4_999].nonce, 14_999);
    assert!(queue.is_empty());
    assert!(drain_batch(&mut queue).is_empty());
}
