use greydio::contracts::{Contract, OwnershipToken, PopularityToken};
use greydio::smt::{NaiveSparseMerkle, SparseMerkle};
use greydio::types::{ChainError, ContractId};

#[test]
fn ownership_token_rejects_unknown_method() {
    let mut s = NaiveSparseMerkle::default();
    assert_eq!(OwnershipToken.call(&mut s, "burn", "{}"), Err(ChainError::UnknownMethod));
}

#[test]
fn ownership_token_accepts_mint_and_transfer() {
    let mut s = NaiveSparseMerkle::default();
    assert_eq!(OwnershipToken.call(&mut s, "mint", "{}"), Ok("{\"ok\":true}".to_string()));
    assert_eq!(OwnershipToken.call(&mut s, "transfer", "{}"), Ok("{\"ok\":true}".to_string()));
    assert_eq!(s.get_root(), greydio::types::Hash::zero());
}

#[test]
fn popularity_token_accepts_any_method() {
    let mut s = NaiveSparseMerkle::default();
    assert_eq!(PopularityToken.call(&mut s, "burn", "{}"), Ok("{\"ok\":true}".to_string()));
    assert_eq!(PopularityToken.call(&mut s, "", "[]"), Ok("{\"ok\":true}".to_string()));
}

#[test]
fn contract_ids() {
    assert_eq!(OwnershipToken.id(), ContractId::OwnershipToken);
    assert_eq!(PopularityToken.id(), ContractId::PopularityToken);
}
