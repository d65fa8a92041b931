use nft_ledger::account::AccountId;
use nft_ledger::collections::AssocMap;
use nft_ledger::context::CallContext;
use nft_ledger::contract::Contract;
use nft_ledger::errors::LedgerError;
use nft_ledger::metadata::{Payout, TokenMetadata};
use nft_ledger::nft_core::NonFungibleTokenCore;
use nft_ledger::royalties::{payout_of, NonFungibleTokenMetadata};

fn account(id: &str) -> AccountId {
    AccountId::new(id.to_string()).unwrap()
}

fn call(predecessor: &str, attached_deposit: u128) -> CallContext {
    CallContext {
        predecessor_account_id: account(predecessor),
        signer_account_id: account(predecessor),
        current_account_id: account("ledger.near"),
        attached_deposit,
        storage_byte_cost: 0,
    }
}

fn royalty(shares: &[(&str, u32)]) -> AssocMap<AccountId, u32> {
    let mut royalty: AssocMap<AccountId, u32> = AssocMap::new();
    for (name, share) in shares {
        royalty.insert(account(name), *share);
    }
    royalty
}

fn nothing() -> TokenMetadata {
    TokenMetadata {
        title: None,
        description: None,
        media: None,
        media_hash: None,
        copies: None,
        issued_at: None,
        extra: None,
    }
}

fn paid(payout: &Payout, name: &str) -> Option<u128> {
    payout.payout.get(&account(name)).copied()
}

fn total(payout: &Payout) -> u128 {
    let mut sum = 0;
    for i in 0..payout.payout.len() {
        sum += *payout.payout.value_at(i);
    }
    sum
}

#[test]
fn royalty_split_of_even_shares() {
    let payout = payout_of(&royalty(&[("aa", 3000), ("bb", 7000)]), &account("seller"), 1000);
    assert_eq!(paid(&payout, "aa"), Some(300));
    assert_eq!(paid(&payout, "bb"), Some(700));
    assert_eq!(paid(&payout, "seller"), Some(0));
    assert_eq!(payout.payout.len(), 3);
    assert_eq!(total(&payout), 1000);
}

#[test]
fn royalty_split_leaves_the_remainder_to_the_seller() {
    let payout = payout_of(&royalty(&[("aa", 3333), ("bb", 3333)]), &account("seller"), 10);
    assert_eq!(paid(&payout, "aa"), Some(3));
    assert_eq!(paid(&payout, "bb"), Some(3));
    assert_eq!(paid(&payout, "seller"), Some(4));
    assert_eq!(total(&payout), 10);

    let payout = payout_of(&royalty(&[("aa", 1), ("bb", 9999)]), &account("seller"), 9999);
    assert_eq!(paid(&payout, "aa"), Some(0));
    assert_eq!(paid(&payout, "bb"), Some(9998));
    assert_eq!(paid(&payout, "seller"), Some(1));
}

#[test]
fn royalty_of_the_seller_goes_to_the_seller_with_the_rest() {
    let payout = payout_of(&royalty(&[("aa", 2500), ("seller", 2500)]), &account("seller"), 1001);
    assert_eq!(paid(&payout, "aa"), Some(250));
    assert_eq!(paid(&payout, "seller"), Some(751));
    assert_eq!(payout.payout.len(), 2);

    let payout = payout_of(&royalty(&[]), &account("seller"), u128::MAX);
    assert_eq!(paid(&payout, "seller"), Some(u128::MAX));
    assert_eq!(payout.payout.len(), 1);

    let payout = payout_of(&royalty(&[("aa", 10000)]), &account("seller"), u128::MAX);
    assert_eq!(paid(&payout, "aa"), Some(u128::MAX));
    assert_eq!(paid(&payout, "seller"), Some(0));
}

fn ledger() -> Contract {
    let mut ledger = Contract::new_default(account("ledger.near"));
    ledger
        .nft_mint(
            "t1".to_string(),
            nothing(),
            account("alice"),
            Some(royalty(&[("aa", 3000), ("bb", 7000)])),
        )
        .ok()
        .unwrap();
    ledger
}

#[test]
fn payout_of_a_token() {
    let ledger = ledger();
    let payout = ledger.nft_payout("t1".to_string(), account("alice"), 1000, 2).ok().unwrap();
    assert_eq!(paid(&payout, "aa"), Some(300));
    assert_eq!(paid(&payout, "bb"), Some(700));
    assert_eq!(paid(&payout, "alice"), Some(0));
    let too_many = ledger.nft_payout("t1".to_string(), account("alice"), 1000, 1);
    assert_eq!(too_many.err(), Some(LedgerError::TooManyPayouts));
    let missing = ledger.nft_payout("t2".to_string(), account("alice"), 1000, 10);
    assert_eq!(missing.err(), Some(LedgerError::TokenNotFound));
}

#[test]
fn transfer_with_payout_moves_the_token() {
    let mut ledger = ledger();
    let too_many =
        ledger.nft_transfer_payout(&call("alice", 1), account("bob"), "t1".to_string(), None, None, 500, 1);
    assert_eq!(too_many.err(), Some(LedgerError::TooManyPayouts));
    let unpaid =
        ledger.nft_transfer_payout(&call("alice", 0), account("bob"), "t1".to_string(), None, None, 500, 2);
    assert_eq!(unpaid.err(), Some(LedgerError::PaymentRequired));
    let stranger =
        ledger.nft_transfer_payout(&call("bob", 1), account("bob"), "t1".to_string(), None, None, 500, 2);
    assert_eq!(stranger.err(), Some(LedgerError::Unauthorized));
    assert_eq!(ledger.nft_token("t1".to_string()).unwrap().owner_id.as_str(), "alice");

    let (payout, transfer) = ledger
        .nft_transfer_payout(&call("alice", 1), account("bob"), "t1".to_string(), None, None, 501, 2)
        .ok()
        .unwrap();
    assert_eq!(paid(&payout, "aa"), Some(150));
    assert_eq!(paid(&payout, "bb"), Some(350));
    assert_eq!(paid(&payout, "alice"), Some(1));
    assert_eq!(transfer.refund.receiver_id.as_str(), "alice");
    assert_eq!(transfer.event.new_owner_id, "bob");
    let shown = ledger.nft_token("t1".to_string()).unwrap();
    assert_eq!(shown.owner_id.as_str(), "bob");
    assert_eq!(shown.royalty.get(&account("aa")), Some(&3000));
}
