//! Transaction-processing core of a single-node chain: an authenticated
//! key/value store, built-in contract dispatch, a ledger that assembles
//! blocks, and the decisions of the block-production loop.
pub mod bytes;
pub mod codec;
pub mod consensus;
pub mod contracts;
pub mod crypto;
pub mod ledger;
pub mod smt;
pub mod status;
pub mod types;
