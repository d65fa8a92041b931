use nft_ledger::account::AccountId;
use nft_ledger::approval::NonFungibleTokenCore as Approvals;
use nft_ledger::collections::{AssocMap, AssocSet};
use nft_ledger::context::CallContext;
use nft_ledger::contract::{Contract, STORAGE_PER_SALE};
use nft_ledger::metadata::{SaleArgs, SeriesMetadata, TokenMetadata};
use nft_ledger::nft_core::NonFungibleTokenCore as Transfers;
use nft_ledger::state::{index_holds, no_set_is_empty, ContractParts};

fn account(id: &str) -> AccountId {
    AccountId::new(id.to_string()).unwrap()
}

fn call(predecessor: &str, signer: &str, attached_deposit: u128) -> CallContext {
    CallContext {
        predecessor_account_id: account(predecessor),
        signer_account_id: account(signer),
        current_account_id: account("ledger.near"),
        attached_deposit,
        storage_byte_cost: 0,
    }
}

fn nothing() -> TokenMetadata {
    TokenMetadata {
        title: None,
        description: None,
        media: None,
        media_hash: None,
        copies: None,
        issued_at: None,
        extra: None,
    }
}

fn busy_ledger() -> Contract {
    let mut ledger = Contract::new_default(account("ledger.near"));
    for (token, owner) in [("t1", "alice"), ("t2", "alice"), ("t3", "bob")] {
        ledger.nft_mint(token.to_string(), nothing(), account(owner), None).ok().unwrap();
    }
    ledger
        .nft_approve(&call("alice", "alice", 1), "t1".to_string(), account("carol"), None)
        .ok()
        .unwrap();
    ledger.storage_deposit(&call("alice", "alice", 2 * STORAGE_PER_SALE), None).ok().unwrap();
    ledger
        .nft_on_approve(
            &call("nft.near", "alice", 0),
            "t1".to_string(),
            account("alice"),
            0,
            Some(SaleArgs { sale_conditions: 9 }),
        )
        .ok()
        .unwrap();
    ledger
        .create_series(
            &call("bob", "bob", 0),
            SeriesMetadata {
                name: None,
                description: None,
                category: None,
                logo_media: None,
                banner_media: None,
            },
        )
        .ok()
        .unwrap();
    ledger.set_user_name(account("bob"), Some("Bob".to_string()));
    ledger
}

fn parts() -> ContractParts {
    busy_ledger().into_parts()
}

#[test]
fn parts_of_a_ledger_make_the_ledger_again() {
    let parts = parts();
    assert!(parts.in_order());
    let ledger = Contract::from_parts(parts).unwrap();
    assert_eq!(ledger.nft_total_supply(), 3);
    assert_eq!(ledger.nft_supply_for_owner(account("alice")), 2);
    assert_eq!(ledger.nft_token("t3".to_string()).unwrap().owner_id.as_str(), "bob");
    assert_eq!(ledger.nft_is_approved("t1".to_string(), account("carol"), Some(0)), Ok(true));
    assert_eq!(ledger.storage_balance_of(account("alice")), 2 * STORAGE_PER_SALE);
    assert_eq!(ledger.get_supply_by_owner_id(account("alice")), 1);
    assert_eq!(ledger.get_series_total_supply(), 1);
    assert_eq!(ledger.get_user_metadata(account("bob")).unwrap().name.as_deref(), Some("Bob"));
}

#[test]
fn parts_of_an_empty_ledger_are_in_order() {
    let parts = Contract::new_default(account("ledger.near")).into_parts();
    assert!(parts.in_order());
    assert!(Contract::from_parts(parts).is_some());
}

#[test]
fn token_outside_the_set_of_its_owner_is_refused() {
    let mut parts = parts();
    parts.token_per_owner.remove(&account("bob"));
    assert!(!parts.in_order());
    assert!(Contract::from_parts(parts).is_none());
}

#[test]
fn token_in_the_set_of_another_account_is_refused() {
    let mut parts = parts();
    let mut tokens: AssocSet<String> = AssocSet::new();
    tokens.insert("t3".to_string());
    parts.token_per_owner.insert(account("carol"), tokens);
    assert!(!parts.in_order());

    let mut parts = self::parts();
    let mut tokens: AssocSet<String> = AssocSet::new();
    tokens.insert("t9".to_string());
    parts.token_per_owner.insert(account("carol"), tokens);
    assert!(!parts.in_order());
}

#[test]
fn empty_set_is_refused() {
    let mut parts = parts();
    parts.token_per_owner.insert(account("carol"), AssocSet::new());
    assert!(!parts.in_order());
    let mut parts = self::parts();
    parts.sale_by_owner.insert(account("carol"), AssocSet::new());
    assert!(!parts.in_order());
    let mut parts = self::parts();
    parts.by_nft_contract_id.insert(account("carol"), AssocSet::new());
    assert!(!parts.in_order());
}

#[test]
fn token_without_metadata_or_with_invalid_royalty_is_refused() {
    let mut parts = parts();
    parts.token_metadata_by_id.remove(&"t2".to_string());
    assert!(!parts.in_order());

    let mut parts = self::parts();
    let mut token = parts.token_by_id.remove(&"t2".to_string()).unwrap();
    token.royalty.insert(account("carol"), 10001);
    parts.token_by_id.insert("t2".to_string(), token);
    assert!(!parts.in_order());
}

#[test]
fn listing_out_of_place_is_refused() {
    let mut parts = parts();
    let sale = parts.sales.remove(&"nft.near.t1".to_string()).unwrap();
    parts.sales.insert("nft.near.t2".to_string(), sale);
    assert!(!parts.in_order());

    let mut parts = self::parts();
    parts.sale_by_owner.remove(&account("alice"));
    assert!(!parts.in_order());

    let mut parts = self::parts();
    parts.by_nft_contract_id.remove(&account("nft.near"));
    assert!(!parts.in_order());
}

#[test]
fn listing_without_collateral_is_refused() {
    let mut parts = parts();
    parts.storage_deposits.insert(account("alice"), STORAGE_PER_SALE - 1);
    assert!(!parts.in_order());
    let mut parts = self::parts();
    parts.storage_deposits.remove(&account("alice"));
    assert!(!parts.in_order());
    let mut parts = self::parts();
    parts.storage_deposits.insert(account("alice"), STORAGE_PER_SALE);
    assert!(parts.in_order());
}

#[test]
fn series_that_is_not_there_is_refused() {
    let mut parts = parts();
    let mut owned: AssocSet<u64> = AssocSet::new();
    owned.insert(7);
    parts.series_per_owner.insert(account("carol"), owned);
    assert!(!parts.in_order());
}

#[test]
fn index_helpers_tell_what_is_there() {
    let mut index: AssocMap<AccountId, AssocSet<String>> = AssocMap::new();
    assert!(no_set_is_empty(&index));
    let mut tokens: AssocSet<String> = AssocSet::new();
    tokens.insert("t1".to_string());
    index.insert(account("alice"), tokens);
    assert!(index_holds(&index, &account("alice"), &"t1".to_string()));
    assert!(!index_holds(&index, &account("alice"), &"t2".to_string()));
    assert!(!index_holds(&index, &account("bob"), &"t1".to_string()));
    assert!(no_set_is_empty(&index));
    index.insert(account("bob"), AssocSet::new());
    assert!(!no_set_is_empty(&index));
}

#[test]
fn ledger_put_together_goes_on_working() {
    let mut ledger = Contract::from_parts(parts()).unwrap();
    let moved = ledger
        .nft_transfer(&call("carol", "carol", 1), account("dave"), "t1".to_string(), None, Some(0))
        .ok()
        .unwrap();
    assert_eq!(moved.refund.receiver_id.as_str(), "alice");
    assert_eq!(ledger.nft_supply_for_owner(account("alice")), 1);
    assert_eq!(ledger.nft_supply_for_owner(account("dave")), 1);
    assert!(ledger.into_parts().in_order());
}

#[test]
fn series_number_that_is_taken_is_refused() {
    let mut parts = Contract::new_default(account("ledger.near")).into_parts();
    parts.series_by_id.insert(
        2,
        nft_ledger::metadata::Series {
            royalty: None,
            tokens: AssocSet::new(),
            price: None,
            volume: None,
            owner_id: account("alice"),
            metadata: SeriesMetadata {
                name: None,
                description: None,
                category: None,
                logo_media: None,
                banner_media: None,
            },
        },
    );
    let mut ledger = Contract::from_parts(parts).unwrap();
    let refused = ledger.create_series(
        &call("bob", "bob", 0),
        SeriesMetadata {
            name: None,
            description: None,
            category: None,
            logo_media: None,
            banner_media: None,
        },
    );
    assert_eq!(refused, Err(nft_ledger::errors::LedgerError::DuplicateSeries));
    assert_eq!(ledger.get_series_total_supply(), 1);
}

#[test]
fn approval_beyond_the_last_number_is_refused() {
    let mut parts = parts();
    let mut token = parts.token_by_id.remove(&"t3".to_string()).unwrap();
    token.next_approval_id = u64::MAX;
    parts.token_by_id.insert("t3".to_string(), token);
    let mut ledger = Contract::from_parts(parts).unwrap();
    let refused = ledger.nft_approve(&call("bob", "bob", 1), "t3".to_string(), account("carol"), None);
    assert_eq!(refused.err(), Some(nft_ledger::errors::LedgerError::Overflow));
    assert_eq!(ledger.nft_is_approved("t3".to_string(), account("carol"), None), Ok(false));
}
