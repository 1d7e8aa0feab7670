use greydio::codec::{encode_header, encode_txs};
use greydio::ledger::Ledger;
use greydio::smt::NaiveSparseMerkle;
use greydio::types::{blake3_hash, ChainError, ContractId, Tx, TxPayload};

fn transfer(nonce: u64) -> Tx {
    Tx {
        from: vec![1, 2, 3],
        nonce,
        payload: TxPayload::Transfer { to: vec![9], amount: 5 },
        signature: vec![],
    }
}

fn call(contract: ContractId, method: &str) -> Tx {
    Tx {
        from: vec![7],
        nonce: 0,
        payload: TxPayload::Call {
            contract,
            method: method.to_string(),
            args: "{}".to_string(),
        },
        signature: vec![],
    }
}

#[test]
fn genesis_ledger() {
    let l: Ledger<NaiveSparseMerkle> = Ledger::default();
    assert_eq!(l.height(), 0);
    assert_eq!(l.tip(), greydio::types::Hash::zero());
    let l2 = Ledger::new(NaiveSparseMerkle::default());
    assert_eq!(l2.height(), 0);
}

#[test]
fn build_block_advances_height_and_tip() {
    let mut l: Ledger<NaiveSparseMerkle> = Ledger::default();
    let txs = vec![transfer(1), call(ContractId::OwnershipToken, "mint")];
    let prev = l.tip();
    let b = l.build_block(txs.clone(), vec![4, 2], 77).unwrap();
    assert_eq!(l.height(), 1);
    assert_eq!(b.header.height, 1);
    assert_eq!(b.header.prev_hash, prev);
    assert_eq!(b.header.timestamp_ms, 77);
    assert_eq!(b.header.proposer, vec![4, 2]);
    assert_eq!(b.txs.len(), 2);
    assert_eq!(b.header.tx_root, blake3_hash(&encode_txs(&txs)));
    assert_eq!(b.header.state_root, greydio::types::Hash::zero());
    assert_eq!(l.tip(), blake3_hash(&encode_header(&b.header)));
    assert_ne!(l.tip(), prev);

    let prev2 = l.tip();
    let b2 = l.build_block(vec![], vec![], 78).unwrap();
    assert_eq!(l.height(), 2);
    assert_eq!(b2.header.prev_hash, prev2);
    assert_eq!(l.tip(), blake3_hash(&encode_header(&b2.header)));
}

#[test]
fn empty_block_is_valid() {
    let mut l: Ledger<NaiveSparseMerkle> = Ledger::default();
    let b = l.build_block(vec![], b"me".to_vec(), 5).unwrap();
    assert!(b.txs.is_empty());
    assert_eq!(l.height(), 1);
    assert_ne!(l.tip(), greydio::types::Hash::zero());
}

#[test]
fn failing_tx_aborts_whole_block() {
    let mut l: Ledger<NaiveSparseMerkle> = Ledger::default();
    l.build_block(vec![], vec![], 1).unwrap();
    let tip = l.tip();
    let txs = vec![transfer(1), call(ContractId::OwnershipToken, "burn"), transfer(2)];
    assert_eq!(l.build_block(txs, vec![], 2).unwrap_err(), ChainError::UnknownMethod);
    assert_eq!(l.height(), 1);
    assert_eq!(l.tip(), tip);
    let b = l.build_block(vec![], vec![], 3).unwrap();
    assert_eq!(b.header.state_root, greydio::types::Hash::zero());
    assert_eq!(b.header.prev_hash, tip);
}

#[test]
fn apply_tx_outcomes() {
    let mut l: Ledger<NaiveSparseMerkle> = Ledger::default();
    assert_eq!(l.apply_tx(&transfer(0)), Ok(()));
    assert_eq!(l.apply_tx(&call(ContractId::PopularityToken, "anything")), Ok(()));
    assert_eq!(l.apply_tx(&call(ContractId::OwnershipToken, "transfer")), Ok(()));
    assert_eq!(
        l.apply_tx(&call(ContractId::OwnershipToken, "burn")),
        Err(ChainError::UnknownMethod)
    );
    assert_eq!(l.height(), 0);
}

#[test]
fn reads_repeat_without_writes() {
    let mut l: Ledger<NaiveSparseMerkle> = Ledger::default();
    l.build_block(vec![transfer(3)], vec![], 10).unwrap();
    assert_eq!(l.tip(), l.tip());
    assert_eq!(l.height(), l.height());
    let t = l.tip();
    let h = l.height();
    assert_eq!((l.tip(), l.height()), (t, h));
}
