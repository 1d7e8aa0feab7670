use vstd::prelude::*;
use vstd::utf8::encode_utf8;
use crate::bytes::push_all;
use crate::types::{Block, BlockHeader, ContractId, Tx, TxPayload};

verus! {

/// The lowest `width` bytes of `n`, least significant first.
pub open spec fn le_bytes(n: nat, width: nat) -> Seq<u8>
    decreases width,
{
    if width == 0 {
        Seq::empty()
    } else {
        seq![(n % 256) as u8] + le_bytes(n / 256, (width - 1) as nat)
    }
}

/// A byte string as a field: its length in eight bytes, then the bytes.
pub open spec fn field_bytes(b: Seq<u8>) -> Seq<u8> {
    le_bytes(b.len(), 8) + b
}

/// Text as a field: the UTF-8 encoding, framed as a byte string.
pub open spec fn text_bytes(s: Seq<char>) -> Seq<u8> {
    field_bytes(encode_utf8(s))
}

pub open spec fn contract_index(c: ContractId) -> nat {
    match c {
        ContractId::OwnershipToken => 0,
        ContractId::PopularityToken => 1,
    }
}

/// The canonical encoding of a payload: a four-byte variant index, then the
/// variant's fields in order.
pub open spec fn payload_bytes(p: TxPayload) -> Seq<u8> {
    match p {
        TxPayload::Transfer { to, amount } => le_bytes(0, 4) + field_bytes(to@) + le_bytes(
            amount as nat,
            16,
        ),
        TxPayload::Call { contract, method, args } => le_bytes(1, 4) + le_bytes(
            contract_index(contract),
            4,
        ) + text_bytes(method@) + text_bytes(args@),
    }
}

/// The canonical encoding of a transaction: its fields in order.
pub open spec fn tx_bytes(tx: Tx) -> Seq<u8> {
    field_bytes(tx.from@) + le_bytes(tx.nonce as nat, 8) + payload_bytes(tx.payload) + field_bytes(
        tx.signature@,
    )
}

/// The encodings of `txs`, one after another.
pub open spec fn txs_concat(txs: Seq<Tx>) -> Seq<u8>
    decreases txs.len(),
{
    if txs.len() == 0 {
        Seq::empty()
    } else {
        txs_concat(txs.drop_last()) + tx_bytes(txs.last())
    }
}

/// The canonical encoding of a transaction list: its length in eight bytes,
/// then each transaction.
pub open spec fn tx_list_bytes(txs: Seq<Tx>) -> Seq<u8> {
    le_bytes(txs.len(), 8) + txs_concat(txs)
}

/// The canonical encoding of a block header: its fields in order, digests as
/// their 32 bytes.
pub open spec fn header_bytes(h: BlockHeader) -> Seq<u8> {
    le_bytes(h.height as nat, 8) + h.prev_hash@ + h.state_root@ + h.tx_root@ + le_bytes(
        h.timestamp_ms as nat,
        8,
    ) + field_bytes(h.proposer@)
}

/// Appends the lowest `width` bytes of `n`, least significant first.
fn push_le(out: &mut Vec<u8>, n: u128, width: usize)
    ensures
        final(out)@ == old(out)@ + le_bytes(n as nat, width as nat),
{
    let mut v: u128 = n;
    let mut i: usize = 0;
    assert(le_bytes(n as nat, width as nat) =~= Seq::<u8>::empty() + le_bytes(n as nat, width as nat));
    while i < width
        invariant
            i <= width,
            out@ + le_bytes(v as nat, (width - i) as nat) == old(out)@ + le_bytes(
                n as nat,
                width as nat,
            ),
        decreases width - i,
    {
        let ghost before = out@;
        out.push((v % 256) as u8);
        proof {
            let rest = le_bytes((v / 256) as nat, (width - i - 1) as nat);
            assert(le_bytes(v as nat, (width - i) as nat) == seq![(v % 256) as u8] + rest);
            assert(out@ + rest =~= before + (seq![(v % 256) as u8] + rest));
        }
        v = v / 256;
        i += 1;
    }
    assert(out@ + le_bytes(v as nat, 0) =~= out@);
}

/// Appends `b` framed as a field: its length in eight bytes, then the bytes.
pub fn push_field(out: &mut Vec<u8>, b: &[u8])
    ensures
        final(out)@ == old(out)@ + field_bytes(b@),
{
    push_le(out, b.len() as u128, 8);
    push_all(out, b);
    assert(out@ =~= old(out)@ + field_bytes(b@));
}

fn push_text(out: &mut Vec<u8>, s: &String)
    ensures
        final(out)@ == old(out)@ + text_bytes(s@),
{
    push_field(out, s.as_str().as_bytes());
}

fn push_payload(out: &mut Vec<u8>, p: &TxPayload)
    ensures
        final(out)@ == old(out)@ + payload_bytes(*p),
{
    match p {
        TxPayload::Transfer { to, amount } => {
            push_le(out, 0, 4);
            push_field(out, to.as_slice());
            push_le(out, *amount, 16);
        },
        TxPayload::Call { contract, method, args } => {
            push_le(out, 1, 4);
            let index: u128 = match contract {
                ContractId::OwnershipToken => 0,
                ContractId::PopularityToken => 1,
            };
            push_le(out, index, 4);
            push_text(out, method);
            push_text(out, args);
        },
    }
    assert(out@ =~= old(out)@ + payload_bytes(*p));
}

/// Appends the canonical encoding of `tx`.
pub fn encode_tx(out: &mut Vec<u8>, tx: &Tx)
    ensures
        final(out)@ == old(out)@ + tx_bytes(*tx),
{
    push_field(out, tx.from.as_slice());
    push_le(out, tx.nonce as u128, 8);
    push_payload(out, &tx.payload);
    push_field(out, tx.signature.as_slice());
    assert(out@ =~= old(out)@ + tx_bytes(*tx));
}

/// The canonical encoding of a transaction list, over which a block's
/// transaction root is taken.
pub fn encode_txs(txs: &Vec<Tx>) -> (r: Vec<u8>)
    ensures
        r@ == tx_list_bytes(txs@),
{
    let mut out: Vec<u8> = Vec::new();
    push_le(&mut out, txs.len() as u128, 8);
    let ghost prefix = out@;
    let mut i: usize = 0;
    assert(txs@.take(0) =~= Seq::<Tx>::empty());
    assert(prefix =~= prefix + txs_concat(Seq::<Tx>::empty()));
    while i < txs.len()
        invariant
            i <= txs@.len(),
            prefix == le_bytes(txs@.len() as nat, 8),
            out@ == prefix + txs_concat(txs@.take(i as int)),
        decreases txs.len() - i,
    {
        encode_tx(&mut out, &txs[i]);
        proof {
            assert(txs@.take(i + 1).drop_last() =~= txs@.take(i as int));
            assert(txs@.take(i + 1).last() == txs@[i as int]);
            assert(out@ =~= prefix + txs_concat(txs@.take(i + 1)));
        }
        i += 1;
    }
    assert(txs@.take(txs@.len() as int) =~= txs@);
    out
}

/// The canonical encoding of a block header, over which the block's digest
/// is taken.
pub fn encode_header(h: &BlockHeader) -> (r: Vec<u8>)
    ensures
        r@ == header_bytes(*h),
{
    let mut out: Vec<u8> = Vec::new();
    push_le(&mut out, h.height as u128, 8);
    push_all(&mut out, &h.prev_hash.0);
    push_all(&mut out, &h.state_root.0);
    push_all(&mut out, &h.tx_root.0);
    push_le(&mut out, h.timestamp_ms as u128, 8);
    push_field(&mut out, h.proposer.as_slice());
    assert(out@ =~= header_bytes(*h));
    out
}

} // verus!
