use vstd::prelude::*;
use vstd::string::StringExecFns;

verus! {

/// How long after the last block the chain still counts as healthy.
pub const HEALTH_WINDOW_MS: u64 = 10000;

/// The lower-case hexadecimal digit for `n` (below 16).
pub open spec fn hex_digit(n: u8) -> char {
    "0123456789abcdef"@[n as int]
}

/// Two lower-case hexadecimal digits per byte, high digit first.
pub open spec fn hex_of(b: Seq<u8>) -> Seq<char>
    decreases b.len(),
{
    if b.len() == 0 {
        Seq::empty()
    } else {
        hex_of(b.drop_last()) + seq![hex_digit(b.last() / 16), hex_digit(b.last() % 16)]
    }
}

/// Relies on `hex::encode`: two lower-case hexadecimal digits for each byte,
/// high digit first, in order.
#[verifier::external_body]
fn hex_encode(b: &[u8]) -> (r: String)
    ensures
        r@ == hex_of(b@),
{
    hex::encode(b)
}

/// A digest as readers see it: `0x` followed by its hexadecimal digits.
pub fn digest_hex(h: &crate::types::Hash) -> (r: String)
    ensures
        r@ == "0x"@ + hex_of(h@),
{
    let digits = hex_encode(&h.0);
    "0x".to_owned().concat(digits.as_str())
}

/// Milliseconds since the last block, or `None` before the first block
/// (a zero timestamp). A clock behind the block reads as age zero.
pub fn block_age(last_block_ts: u64, now_ms: u64) -> (r: Option<u64>)
    ensures
        last_block_ts == 0 ==> r is None,
        last_block_ts > 0 ==> r == Some(
            if now_ms >= last_block_ts {
                (now_ms - last_block_ts) as u64
            } else {
                0u64
            },
        ),
{
    if last_block_ts > 0 {
        Some(now_ms.saturating_sub(last_block_ts))
    } else {
        None
    }
}

/// The chain is healthy once a block was built and the last one is younger
/// than the health window.
pub fn is_healthy(last_block_ts: u64, now_ms: u64) -> (r: bool)
    ensures
        r == (last_block_ts > 0 && now_ms - last_block_ts < HEALTH_WINDOW_MS),
{
    match block_age(last_block_ts, now_ms) {
        Some(age) => age < HEALTH_WINDOW_MS,
        None => false,
    }
}

} // verus!
