use vstd::prelude::*;
use crate::bytes::text_equal;
use crate::smt::SparseMerkle;
use crate::types::{ChainError, ContractId};

verus! {

/// The acknowledgement a built-in contract returns, as JSON text.
pub open spec fn ack_text() -> Seq<char> {
    "{\"ok\":true}"@
}

/// A built-in contract: named logic that a `Call` transaction runs against
/// the state store. Each contract states which methods it defines, what it
/// answers, and what an accepted call makes of the store; a method it does
/// not define fails with `UnknownMethod` and leaves the store as it was.
pub trait Contract {
    /// The identifier the dispatch table files this contract under.
    spec fn ident(&self) -> ContractId;

    /// Whether the contract defines `method`.
    spec fn accepts(&self, method: Seq<char>) -> bool;

    /// The JSON-text answer to an accepted call.
    spec fn answer(&self, method: Seq<char>, args: Seq<char>) -> Seq<char>;

    /// The store's contents after an accepted call on contents `before`.
    spec fn effect(&self, before: Map<Seq<u8>, Seq<u8>>, method: Seq<char>, args: Seq<char>) -> Map<
        Seq<u8>,
        Seq<u8>,
    >;

    fn id(&self) -> (r: ContractId)
        ensures
            r == self.ident(),
    ;

    /// Runs `method` with JSON-text `args` against `state`, and returns the
    /// contract's JSON-text answer.
    fn call<S: SparseMerkle>(&self, state: &mut S, method: &str, args: &str) -> (r: Result<
        String,
        ChainError,
    >)
        requires
            old(state).wf(),
        ensures
            final(state).wf(),
            r is Ok <==> self.accepts(method@),
            r matches Ok(v) ==> v@ == self.answer(method@, args@) && final(state).contents()
                == self.effect(old(state).contents(), method@, args@),
            r matches Err(e) ==> e == ChainError::UnknownMethod && *final(state) == *old(state),
    ;
}

/// Ownership token: defines `mint` and `transfer`, acknowledges them and
/// keeps no state yet.
pub struct OwnershipToken;

/// Popularity token: acknowledges any method and keeps no state yet.
pub struct PopularityToken;

fn ack() -> (r: String)
    ensures
        r@ == ack_text(),
{
    "{\"ok\":true}".to_owned()
}

impl Contract for OwnershipToken {
    open spec fn ident(&self) -> ContractId {
        ContractId::OwnershipToken
    }

    open spec fn accepts(&self, method: Seq<char>) -> bool {
        method == "mint"@ || method == "transfer"@
    }

    open spec fn answer(&self, method: Seq<char>, args: Seq<char>) -> Seq<char> {
        ack_text()
    }

    open spec fn effect(&self, before: Map<Seq<u8>, Seq<u8>>, method: Seq<char>, args: Seq<char>) -> Map<
        Seq<u8>,
        Seq<u8>,
    > {
        before
    }

    fn id(&self) -> (r: ContractId) {
        ContractId::OwnershipToken
    }

    fn call<S: SparseMerkle>(&self, state: &mut S, method: &str, args: &str) -> (r: Result<
        String,
        ChainError,
    >) {
        if text_equal(method, "mint") || text_equal(method, "transfer") {
            Ok(ack())
        } else {
            Err(ChainError::UnknownMethod)
        }
    }
}

impl Contract for PopularityToken {
    open spec fn ident(&self) -> ContractId {
        ContractId::PopularityToken
    }

    open spec fn accepts(&self, method: Seq<char>) -> bool {
        true
    }

    open spec fn answer(&self, method: Seq<char>, args: Seq<char>) -> Seq<char> {
        ack_text()
    }

    open spec fn effect(&self, before: Map<Seq<u8>, Seq<u8>>, method: Seq<char>, args: Seq<char>) -> Map<
        Seq<u8>,
        Seq<u8>,
    > {
        before
    }

    fn id(&self) -> (r: ContractId) {
        ContractId::PopularityToken
    }

    fn call<S: SparseMerkle>(&self, state: &mut S, method: &str, args: &str) -> (r: Result<
        String,
        ChainError,
    >) {
        Ok(ack())
    }
}

} // verus!
