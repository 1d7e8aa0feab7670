use greydio::codec::{encode_header, encode_tx, encode_txs};
use greydio::types::{BlockHeader, ContractId, Tx, TxPayload};

fn le(n: u128, width: usize) -> Vec<u8> {
    n.to_le_bytes()[..width].to_vec()
}

#[test]
fn transfer_encoding_is_exact() {
    let tx = Tx {
        from: vec![1],
        nonce: 2,
        payload: TxPayload::Transfer { to: vec![3], amount: 4 },
        signature: vec![],
    };
    let mut out = Vec::new();
    encode_tx(&mut out, &tx);
    let mut expected = Vec::new();
    expected.extend(le(1, 8));
    expected.push(1);
    expected.extend(le(2, 8));
    expected.extend(le(0, 4));
    expected.extend(le(1, 8));
    expected.push(3);
    expected.extend(le(4, 16));
    expected.extend(le(0, 8));
    assert_eq!(out, expected);
}

#[test]
fn call_encoding_is_exact() {
    let tx = Tx {
        from: vec![],
        nonce: 0x0102,
        payload: TxPayload::Call {
            contract: ContractId::PopularityToken,
            method: "mint".to_string(),
            args: "{}".to_string(),
        },
        signature: vec![0xee, 0xff],
    };
    let mut out = Vec::new();
    encode_tx(&mut out, &tx);
    let mut expected = Vec::new();
    expected.extend(le(0, 8));
    expected.extend([0x02, 0x01, 0, 0, 0, 0, 0, 0]);
    expected.extend(le(1, 4));
    expected.extend(le(1, 4));
    expected.extend(le(4, 8));
    expected.extend(b"mint");
    expected.extend(le(2, 8));
    expected.extend(b"{}");
    expected.extend(le(2, 8));
    expected.extend([0xee, 0xff]);
    assert_eq!(out, expected);
}

#[test]
fn tx_list_encoding_has_count_prefix() {
    assert_eq!(encode_txs(&vec![]), vec![0u8; 8]);
    let tx = Tx {
        from: vec![5],
        nonce: 1,
        payload: TxPayload::Transfer { to: vec![], amount: u128::MAX },
        signature: vec![6],
    };
    let mut one = Vec::new();
    encode_tx(&mut one, &tx);
    let mut expected = le(2, 8);
    expected.extend(one.clone());
    expected.extend(one);
    assert_eq!(encode_txs(&vec![tx.clone(), tx]), expected);
}

#[test]
fn header_encoding_is_exact() {
    let h = BlockHeader {
        height: 3,
        prev_hash: greydio::types::Hash([1u8; 32]),
        state_root: greydio::types::Hash([2u8; 32]),
        tx_root: greydio::types::Hash([3u8; 32]),
        timestamp_ms: 1000,
        proposer: vec![9, 9],
    };
    let mut expected = le(3, 8);
    expected.extend([1u8; 32]);
    expected.extend([2u8; 32]);
    expected.extend([3u8; 32]);
    expected.extend(le(1000, 8));
    expected.extend(le(2, 8));
    expected.extend([9, 9]);
    assert_eq!(encode_header(&h), expected);
    assert_eq!(encode_header(&h).len(), 8 + 96 + 8 + 8 + 2);
}
