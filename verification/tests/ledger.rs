use nft_ledger::account::AccountId;
use nft_ledger::approval::NonFungibleTokenCore as Approvals;
use nft_ledger::collections::AssocMap;
use nft_ledger::context::CallContext;
use nft_ledger::contract::{Contract, STORAGE_PER_SALE};
use nft_ledger::errors::{ErrorKind, LedgerError};
use nft_ledger::metadata::TokenMetadata;
use nft_ledger::nft_core::{NonFungibleTokenCore as Transfers, PromiseResult};

fn account(id: &str) -> AccountId {
    AccountId::new(id.to_string()).unwrap()
}

fn call(predecessor: &str, attached_deposit: u128, storage_byte_cost: u128) -> CallContext {
    CallContext {
        predecessor_account_id: account(predecessor),
        signer_account_id: account(predecessor),
        current_account_id: account("ledger.near"),
        attached_deposit,
        storage_byte_cost,
    }
}

fn callback(storage_byte_cost: u128) -> CallContext {
    call("ledger.near", 0, storage_byte_cost)
}

fn metadata(title: &str) -> TokenMetadata {
    TokenMetadata {
        title: Some(title.to_string()),
        description: None,
        media: None,
        media_hash: None,
        copies: Some(1),
        issued_at: None,
        extra: None,
    }
}

fn ledger_with_token(owner: &str) -> Contract {
    let mut ledger = Contract::new_default(account("ledger.near"));
    let token = ledger.nft_mint("t1".to_string(), metadata("first"), account(owner), None);
    assert!(token.is_ok());
    ledger
}

fn owner_of(ledger: &Contract, token_id: &str) -> String {
    ledger.nft_token(token_id.to_string()).unwrap().owner_id.as_str().to_string()
}

fn owns(ledger: &Contract, owner: &str, token_id: &str) -> bool {
    let tokens = ledger.nft_tokens_for_owner(account(owner), 0, u128::MAX);
    tokens.iter().any(|t| t.token_id == token_id)
}

#[test]
fn mint_creates_token_without_approvals() {
    let mut ledger = Contract::new_default(account("ledger.near"));
    let token = ledger
        .nft_mint("t1".to_string(), metadata("first"), account("alice"), None)
        .ok()
        .unwrap();
    assert_eq!(token.owner_id.as_str(), "alice");
    assert_eq!(token.next_approval_id, 0);
    assert!(token.approved_account_ids.is_empty());
    assert!(token.royalty.is_empty());

    let shown = ledger.nft_token("t1".to_string()).unwrap();
    assert_eq!(shown.token_id, "t1");
    assert_eq!(shown.owner_id.as_str(), "alice");
    assert_eq!(shown.metadata.title.as_deref(), Some("first"));
    assert_eq!(shown.metadata.copies, Some(1));
    assert!(shown.approved_account_ids.is_empty());
    assert_eq!(ledger.nft_total_supply(), 1);
    assert_eq!(ledger.nft_supply_for_owner(account("alice")), 1);
    assert_eq!(ledger.nft_supply_for_owner(account("bob")), 0);
    assert!(owns(&ledger, "alice", "t1"));
    assert!(ledger.nft_token("t2".to_string()).is_none());
}

#[test]
fn mint_refuses_duplicate_token() {
    let mut ledger = ledger_with_token("alice");
    let again = ledger.nft_mint("t1".to_string(), metadata("second"), account("bob"), None);
    assert_eq!(again.err(), Some(LedgerError::DuplicateToken));
    assert_eq!(owner_of(&ledger, "t1"), "alice");
    assert_eq!(ledger.nft_total_supply(), 1);
    assert_eq!(ledger.nft_supply_for_owner(account("bob")), 0);
}

#[test]
fn mint_refuses_invalid_royalty() {
    let mut ledger = Contract::new_default(account("ledger.near"));
    let mut seven: AssocMap<AccountId, u32> = AssocMap::new();
    for name in ["aa", "bb", "cc", "dd", "ee", "ff", "gg"] {
        seven.insert(account(name), 1);
    }
    let refused = ledger.nft_mint("t1".to_string(), metadata("x"), account("alice"), Some(seven));
    assert_eq!(refused.err(), Some(LedgerError::InvalidRoyalty));

    let mut too_much: AssocMap<AccountId, u32> = AssocMap::new();
    too_much.insert(account("aa"), 6000);
    too_much.insert(account("bb"), 4001);
    let refused = ledger.nft_mint("t1".to_string(), metadata("x"), account("alice"), Some(too_much));
    assert_eq!(refused.err(), Some(LedgerError::InvalidRoyalty));
    assert_eq!(ledger.nft_total_supply(), 0);

    let mut whole: AssocMap<AccountId, u32> = AssocMap::new();
    whole.insert(account("aa"), 6000);
    whole.insert(account("bb"), 4000);
    let minted = ledger.nft_mint("t1".to_string(), metadata("x"), account("alice"), Some(whole));
    assert!(minted.is_ok());
    let shown = ledger.nft_token("t1".to_string()).unwrap();
    assert_eq!(shown.royalty.get(&account("aa")), Some(&6000));
    assert_eq!(shown.royalty.get(&account("bb")), Some(&4000));
}

#[test]
fn approve_then_transfer_with_matching_approval() {
    let mut ledger = ledger_with_token("alice");
    let approval = ledger
        .nft_approve(&call("alice", 1, 0), "t1".to_string(), account("bob"), None)
        .ok()
        .unwrap();
    assert_eq!(approval.approval_id, 0);
    assert!(approval.notification.is_none());
    assert_eq!(
        ledger.nft_is_approved("t1".to_string(), account("bob"), None),
        Ok(true)
    );
    assert_eq!(
        ledger.nft_is_approved("t1".to_string(), account("bob"), Some(0)),
        Ok(true)
    );
    assert_eq!(
        ledger.nft_is_approved("t1".to_string(), account("bob"), Some(1)),
        Ok(false)
    );
    assert_eq!(
        ledger.nft_is_approved("t1".to_string(), account("carol"), None),
        Ok(false)
    );

    let by_stranger =
        ledger.nft_transfer(&call("dave", 1, 0), account("carol"), "t1".to_string(), None, None);
    assert_eq!(by_stranger.err(), Some(LedgerError::Unauthorized));
    let wrong_id =
        ledger.nft_transfer(&call("bob", 1, 0), account("carol"), "t1".to_string(), None, Some(1));
    assert_eq!(wrong_id.err(), Some(LedgerError::Unauthorized));
    assert_eq!(owner_of(&ledger, "t1"), "alice");

    let moved = ledger
        .nft_transfer(&call("bob", 1, 0), account("carol"), "t1".to_string(), None, Some(0))
        .ok()
        .unwrap();
    assert_eq!(moved.refund.receiver_id.as_str(), "alice");
    assert_eq!(moved.refund.amount, 0);
    assert_eq!(moved.event.authorized_id.as_deref(), Some("bob"));
    assert_eq!(moved.event.old_owner_id, "alice");
    assert_eq!(moved.event.new_owner_id, "carol");
    assert_eq!(moved.event.token_ids, vec!["t1".to_string()]);
    assert_eq!(moved.event.memo, None);

    let shown = ledger.nft_token("t1".to_string()).unwrap();
    assert_eq!(shown.owner_id.as_str(), "carol");
    assert!(shown.approved_account_ids.is_empty());
    assert!(owns(&ledger, "carol", "t1"));
    assert!(!owns(&ledger, "alice", "t1"));
    assert_eq!(ledger.nft_supply_for_owner(account("alice")), 0);
}

#[test]
fn approve_charges_for_a_new_grantee_only() {
    let mut ledger = ledger_with_token("alice");
    let too_dear = ledger.nft_approve(&call("alice", 1, 1), "t1".to_string(), account("bob"), None);
    assert_eq!(
        too_dear.err(),
        Some(LedgerError::InsufficientCollateral { required: 15, available: 1 })
    );
    assert_eq!(ledger.nft_is_approved("t1".to_string(), account("bob"), None), Ok(false));

    let first = ledger
        .nft_approve(&call("alice", 1, 0), "t1".to_string(), account("bob"), None)
        .ok()
        .unwrap();
    assert_eq!((first.approval_id, first.refund), (0, 1));
    let again = ledger
        .nft_approve(&call("alice", 1, 1), "t1".to_string(), account("bob"), None)
        .ok()
        .unwrap();
    assert_eq!((again.approval_id, again.refund), (1, 1));
    assert_eq!(ledger.nft_is_approved("t1".to_string(), account("bob"), Some(0)), Ok(false));
    assert_eq!(ledger.nft_is_approved("t1".to_string(), account("bob"), Some(1)), Ok(true));
}

#[test]
fn approve_is_for_the_owner_with_one_unit() {
    let mut ledger = ledger_with_token("alice");
    let unpaid = ledger.nft_approve(&call("alice", 0, 0), "t1".to_string(), account("bob"), None);
    assert_eq!(unpaid.err(), Some(LedgerError::PaymentRequired));
    let overpaid = ledger.nft_approve(&call("alice", 2, 0), "t1".to_string(), account("bob"), None);
    assert_eq!(overpaid.err(), Some(LedgerError::PaymentRequired));
    let missing = ledger.nft_approve(&call("alice", 1, 0), "t9".to_string(), account("bob"), None);
    assert_eq!(missing.err(), Some(LedgerError::TokenNotFound));
    let stranger = ledger.nft_approve(&call("bob", 1, 0), "t1".to_string(), account("bob"), None);
    assert_eq!(stranger.err(), Some(LedgerError::NotOwner));
    assert_eq!(
        ledger.nft_is_approved("t9".to_string(), account("bob"), None),
        Err(LedgerError::TokenNotFound)
    );
}

#[test]
fn approve_with_message_notifies_the_grantee() {
    let mut ledger = ledger_with_token("alice");
    let approval = ledger
        .nft_approve(
            &call("alice", 1, 0),
            "t1".to_string(),
            account("market.near"),
            Some("{\"sale_conditions\":\"5\"}".to_string()),
        )
        .ok()
        .unwrap();
    let notice = approval.notification.unwrap();
    assert_eq!(notice.receiver_id.as_str(), "market.near");
    assert_eq!(notice.token_id, "t1");
    assert_eq!(notice.owner_id.as_str(), "alice");
    assert_eq!(notice.approval_id, 0);
    assert_eq!(notice.msg, "{\"sale_conditions\":\"5\"}");
}

#[test]
fn approval_ids_grow_until_a_transfer() {
    let mut ledger = ledger_with_token("alice");
    for (expected, grantee) in ["bob", "carol", "bob", "dave"].iter().enumerate() {
        let approval = ledger
            .nft_approve(&call("alice", 1, 0), "t1".to_string(), account(grantee), None)
            .ok()
            .unwrap();
        assert_eq!(approval.approval_id, expected as u64);
    }
    ledger
        .nft_transfer(&call("alice", 1, 0), account("erin"), "t1".to_string(), None, None)
        .ok()
        .unwrap();
    let approval = ledger
        .nft_approve(&call("erin", 1, 0), "t1".to_string(), account("bob"), None)
        .ok()
        .unwrap();
    assert_eq!(approval.approval_id, 0);
}

#[test]
fn revoke_refunds_the_owner() {
    let mut ledger = ledger_with_token("alice");
    ledger.nft_approve(&call("alice", 1, 0), "t1".to_string(), account("bob"), None).ok().unwrap();
    ledger.nft_approve(&call("alice", 1, 0), "t1".to_string(), account("carol"), None).ok().unwrap();

    let stranger = ledger.nft_revoke(&call("bob", 1, 7), "t1".to_string(), account("bob"));
    assert_eq!(stranger.err(), Some(LedgerError::NotOwner));
    let unpaid = ledger.nft_revoke(&call("alice", 0, 7), "t1".to_string(), account("bob"));
    assert_eq!(unpaid.err(), Some(LedgerError::PaymentRequired));

    let nothing = ledger.nft_revoke(&call("alice", 1, 7), "t1".to_string(), account("dave")).ok().unwrap();
    assert!(nothing.is_none());

    let refund = ledger
        .nft_revoke(&call("alice", 1, 7), "t1".to_string(), account("bob"))
        .ok()
        .unwrap()
        .unwrap();
    assert_eq!(refund.receiver_id.as_str(), "alice");
    assert_eq!(refund.amount, 15 * 7);
    assert_eq!(ledger.nft_is_approved("t1".to_string(), account("bob"), None), Ok(false));
    assert_eq!(ledger.nft_is_approved("t1".to_string(), account("carol"), Some(1)), Ok(true));
}

#[test]
fn revoke_all_refunds_every_approval() {
    let mut ledger = ledger_with_token("alice");
    let nothing = ledger.nft_revoke_all(&call("alice", 1, 3), "t1".to_string()).ok().unwrap();
    assert!(nothing.is_none());

    ledger.nft_approve(&call("alice", 1, 0), "t1".to_string(), account("bob"), None).ok().unwrap();
    ledger.nft_approve(&call("alice", 1, 0), "t1".to_string(), account("carol"), None).ok().unwrap();
    let refund = ledger.nft_revoke_all(&call("alice", 1, 3), "t1".to_string()).ok().unwrap().unwrap();
    assert_eq!(refund.receiver_id.as_str(), "alice");
    assert_eq!(refund.amount, (15 + 17) * 3);
    assert_eq!(ledger.nft_is_approved("t1".to_string(), account("bob"), None), Ok(false));
    assert_eq!(ledger.nft_is_approved("t1".to_string(), account("carol"), None), Ok(false));
    // the counter goes on
    let next = ledger
        .nft_approve(&call("alice", 1, 0), "t1".to_string(), account("bob"), None)
        .ok()
        .unwrap();
    assert_eq!(next.approval_id, 2);
}

#[test]
fn transfer_refuses_what_it_must() {
    let mut ledger = ledger_with_token("alice");
    let unpaid = ledger.nft_transfer(&call("alice", 0, 0), account("bob"), "t1".to_string(), None, None);
    assert_eq!(unpaid.err(), Some(LedgerError::PaymentRequired));
    let missing = ledger.nft_transfer(&call("alice", 1, 0), account("bob"), "t9".to_string(), None, None);
    assert_eq!(missing.err(), Some(LedgerError::TokenNotFound));
    let to_self = ledger.nft_transfer(&call("alice", 1, 0), account("alice"), "t1".to_string(), None, None);
    assert_eq!(to_self.err(), Some(LedgerError::SelfTransfer));
    let stranger = ledger.nft_transfer(&call("bob", 1, 0), account("bob"), "t1".to_string(), None, None);
    assert_eq!(stranger.err(), Some(LedgerError::Unauthorized));
    assert_eq!(owner_of(&ledger, "t1"), "alice");
    assert_eq!(LedgerError::SelfTransfer.kind(), ErrorKind::InvalidRequest);
    assert_eq!(LedgerError::TokenNotFound.kind(), ErrorKind::NotFound);
    assert_eq!(LedgerError::PaymentRequired.kind(), ErrorKind::InsufficientCollateral);
    assert_eq!(LedgerError::NotOwner.kind(), ErrorKind::Unauthorized);
}

#[test]
fn transfer_round_trip_restores_owner_not_approvals() {
    let mut ledger = ledger_with_token("alice");
    ledger.nft_approve(&call("alice", 1, 0), "t1".to_string(), account("carol"), None).ok().unwrap();
    let there = ledger
        .nft_transfer(&call("alice", 1, 5), account("bob"), "t1".to_string(), Some("gift".to_string()), None)
        .ok()
        .unwrap();
    assert_eq!(there.refund.receiver_id.as_str(), "alice");
    assert_eq!(there.refund.amount, 17 * 5);
    assert_eq!(there.event.authorized_id, None);
    assert_eq!(there.event.memo.as_deref(), Some("gift"));
    ledger
        .nft_transfer(&call("bob", 1, 5), account("alice"), "t1".to_string(), None, None)
        .ok()
        .unwrap();
    let shown = ledger.nft_token("t1".to_string()).unwrap();
    assert_eq!(shown.owner_id.as_str(), "alice");
    assert!(shown.approved_account_ids.is_empty());
    assert!(owns(&ledger, "alice", "t1"));
    assert!(!owns(&ledger, "bob", "t1"));
    assert_eq!(ledger.nft_supply_for_owner(account("bob")), 0);
}

fn start_transfer_call(ledger: &mut Contract) -> nft_ledger::nft_core::TransferCall {
    ledger.nft_approve(&call("alice", 1, 0), "t1".to_string(), account("carol"), None).ok().unwrap();
    ledger
        .nft_transfer_call(
            &call("carol", 1, 2),
            account("bob"),
            "t1".to_string(),
            Some("memo".to_string()),
            "payload".to_string(),
            Some(0),
        )
        .ok()
        .unwrap()
}

#[test]
fn transfer_call_hands_out_what_to_ask_and_settle() {
    let mut ledger = ledger_with_token("alice");
    let pending = start_transfer_call(&mut ledger);
    assert_eq!(pending.receiver_id.as_str(), "bob");
    assert_eq!(pending.sender_id.as_str(), "carol");
    assert_eq!(pending.previous_owner_id.as_str(), "alice");
    assert_eq!(pending.token_id, "t1");
    assert_eq!(pending.msg, "payload");
    assert_eq!(pending.authorized_id.as_deref(), Some("carol"));
    assert_eq!(pending.approved_account_ids.get(&account("carol")), Some(&0));
    assert_eq!(pending.approved_account_ids.len(), 1);
    assert_eq!(pending.memo.as_deref(), Some("memo"));
    assert_eq!(pending.event.old_owner_id, "alice");
    assert_eq!(pending.event.new_owner_id, "bob");
    assert_eq!(owner_of(&ledger, "t1"), "bob");
}

fn settle(
    ledger: &mut Contract,
    pending: nft_ledger::nft_core::TransferCall,
    reply: PromiseResult,
) -> nft_ledger::nft_core::Resolution {
    ledger
        .nft_resolve_transfer(
            &callback(2),
            pending.authorized_id,
            pending.previous_owner_id,
            pending.receiver_id,
            pending.token_id,
            pending.approved_account_ids,
            pending.memo,
            reply,
        )
        .ok()
        .unwrap()
}

#[test]
fn rejected_transfer_call_goes_back() {
    for reply in [
        PromiseResult::Successful(b"true".to_vec()),
        PromiseResult::Successful(b" true\n".to_vec()),
        PromiseResult::Successful(b"1".to_vec()),
        PromiseResult::Successful(b"\"false\"".to_vec()),
        PromiseResult::Successful(b"false false".to_vec()),
        PromiseResult::Successful(b"fals".to_vec()),
        PromiseResult::Successful(Vec::new()),
        PromiseResult::Failed,
        PromiseResult::NotReady,
    ] {
        let mut ledger = ledger_with_token("alice");
        let pending = start_transfer_call(&mut ledger);
        // the receiver approves someone while it holds the token
        ledger.nft_approve(&call("bob", 1, 0), "t1".to_string(), account("dave"), None).ok().unwrap();
        let settled = settle(&mut ledger, pending, reply);
        assert!(!settled.transferred);
        assert_eq!(settled.refund.receiver_id.as_str(), "bob");
        assert_eq!(settled.refund.amount, 16 * 2);
        let event = settled.event.unwrap();
        assert_eq!(event.authorized_id.as_deref(), Some("carol"));
        assert_eq!(event.old_owner_id, "bob");
        assert_eq!(event.new_owner_id, "alice");
        assert_eq!(event.token_ids, vec!["t1".to_string()]);
        assert_eq!(event.memo.as_deref(), Some("memo"));

        let shown = ledger.nft_token("t1".to_string()).unwrap();
        assert_eq!(shown.owner_id.as_str(), "alice");
        assert_eq!(shown.approved_account_ids.get(&account("carol")), Some(&0));
        assert_eq!(shown.approved_account_ids.len(), 1);
        assert!(owns(&ledger, "alice", "t1"));
        assert!(!owns(&ledger, "bob", "t1"));
        assert_eq!(ledger.nft_supply_for_owner(account("bob")), 0);
    }
}

#[test]
fn accepted_transfer_call_stands() {
    for reply in [
        PromiseResult::Successful(b"false".to_vec()),
        PromiseResult::Successful(b" \t\r\nfalse \n".to_vec()),
    ] {
        let mut ledger = ledger_with_token("alice");
        let pending = start_transfer_call(&mut ledger);
        let settled = settle(&mut ledger, pending, reply);
        assert!(settled.transferred);
        assert!(settled.event.is_none());
        assert_eq!(settled.refund.receiver_id.as_str(), "alice");
        assert_eq!(settled.refund.amount, 17 * 2);
        let shown = ledger.nft_token("t1".to_string()).unwrap();
        assert_eq!(shown.owner_id.as_str(), "bob");
        assert!(shown.approved_account_ids.is_empty());
        assert!(owns(&ledger, "bob", "t1"));
        assert!(!owns(&ledger, "alice", "t1"));
    }
}

#[test]
fn settling_leaves_token_with_third_party() {
    for reply in [
        PromiseResult::Successful(b"true".to_vec()),
        PromiseResult::Successful(b"false".to_vec()),
        PromiseResult::Failed,
    ] {
        let mut ledger = ledger_with_token("alice");
        let pending = start_transfer_call(&mut ledger);
        ledger
            .nft_transfer(&call("bob", 1, 0), account("erin"), "t1".to_string(), None, None)
            .ok()
            .unwrap();
        let settled = settle(&mut ledger, pending, reply);
        assert!(settled.transferred);
        assert!(settled.event.is_none());
        assert_eq!(settled.refund.receiver_id.as_str(), "alice");
        assert_eq!(settled.refund.amount, 17 * 2);
        assert_eq!(owner_of(&ledger, "t1"), "erin");
        assert!(owns(&ledger, "erin", "t1"));
        assert!(!owns(&ledger, "alice", "t1"));
        assert!(!owns(&ledger, "bob", "t1"));
    }
}

#[test]
fn only_the_ledger_settles_a_transfer() {
    let mut ledger = ledger_with_token("alice");
    let pending = start_transfer_call(&mut ledger);
    let refused = ledger.nft_resolve_transfer(
        &call("bob", 0, 2),
        pending.authorized_id,
        pending.previous_owner_id,
        pending.receiver_id,
        pending.token_id,
        pending.approved_account_ids,
        pending.memo,
        PromiseResult::Failed,
    );
    assert_eq!(refused.err(), Some(LedgerError::Unauthorized));
    assert_eq!(owner_of(&ledger, "t1"), "bob");
}

#[test]
fn refund_that_no_amount_can_hold_is_refused() {
    let mut ledger = ledger_with_token("alice");
    ledger.nft_approve(&call("alice", 1, 0), "t1".to_string(), account("bob"), None).ok().unwrap();
    let refused =
        ledger.nft_transfer(&call("alice", 1, u128::MAX), account("bob"), "t1".to_string(), None, None);
    assert_eq!(refused.err(), Some(LedgerError::Overflow));
    assert_eq!(owner_of(&ledger, "t1"), "alice");
    let refused = ledger.nft_revoke(&call("alice", 1, u128::MAX), "t1".to_string(), account("bob"));
    assert_eq!(refused.err(), Some(LedgerError::Overflow));
    let refused = ledger.nft_revoke_all(&call("alice", 1, u128::MAX), "t1".to_string());
    assert_eq!(refused.err(), Some(LedgerError::Overflow));
    assert_eq!(ledger.nft_is_approved("t1".to_string(), account("bob"), None), Ok(true));
}

#[test]
fn tokens_are_listed_in_pages() {
    let mut ledger = Contract::new_default(account("ledger.near"));
    for (i, owner) in ["alice", "bob", "alice", "alice", "bob"].iter().enumerate() {
        ledger
            .nft_mint(format!("t{}", i), metadata("x"), account(owner), None)
            .ok()
            .unwrap();
    }
    assert_eq!(ledger.nft_total_supply(), 5);
    let all = ledger.nft_tokens(0, 50);
    assert_eq!(all.len(), 5);
    let page = ledger.nft_tokens(1, 2);
    assert_eq!(page.len(), 2);
    assert_eq!(page[0].token_id, all[1].token_id);
    assert_eq!(page[1].token_id, all[2].token_id);
    assert_eq!(ledger.nft_tokens(4, u128::MAX).len(), 1);
    assert_eq!(ledger.nft_tokens(5, 1).len(), 0);
    assert_eq!(ledger.nft_tokens(u128::MAX, u128::MAX).len(), 0);
    assert_eq!(ledger.nft_tokens(0, 0).len(), 0);

    assert_eq!(ledger.nft_supply_for_owner(account("alice")), 3);
    let of_alice = ledger.nft_tokens_for_owner(account("alice"), 0, 10);
    let mut ids: Vec<String> = of_alice.iter().map(|t| t.token_id.clone()).collect();
    ids.sort();
    assert_eq!(ids, vec!["t0".to_string(), "t2".to_string(), "t3".to_string()]);
    assert_eq!(ledger.nft_tokens_for_owner(account("alice"), 2, 10).len(), 1);
    assert_eq!(ledger.nft_tokens_for_owner(account("carol"), 0, 10).len(), 0);
    assert_eq!(STORAGE_PER_SALE, 10_000_000_000_000_000_000_000);
}

#[test]
fn mint_is_settled_by_the_bytes_that_it_took() {
    let mut ledger = Contract::new_default(account("ledger.near"));
    ledger.nft_mint("t1".to_string(), metadata("first"), account("alice"), None).ok().unwrap();
    let paid = nft_ledger::internal::refund_deposit(200, &call("alice", 1000, 4));
    assert_eq!(paid, Ok(200));
    let short = nft_ledger::internal::refund_deposit(200, &call("alice", 799, 4));
    assert_eq!(
        short,
        Err(LedgerError::InsufficientCollateral { required: 800, available: 799 })
    );
}
