use nft_ledger::account::AccountId;
use nft_ledger::collections::AssocMap;
use nft_ledger::internal::{bytes_for_approved_account_id, refund_approved_account_ids, royalty_to_payout};

fn account(id: &str) -> AccountId {
    AccountId::new(id.to_string()).unwrap()
}

#[test]
fn royalty_to_payout_rounds_down() {
    assert_eq!(royalty_to_payout(3000, 1000), 300);
    assert_eq!(royalty_to_payout(7000, 1000), 700);
    assert_eq!(royalty_to_payout(3333, 10), 3);
    assert_eq!(royalty_to_payout(1, 9999), 0);
    assert_eq!(royalty_to_payout(10000, u128::MAX), u128::MAX);
}

#[test]
fn bytes_for_an_approval_count_the_identifier() {
    assert_eq!(bytes_for_approved_account_id(&account("bob")), 15);
    assert_eq!(bytes_for_approved_account_id(&account("alice.near")), 22);
}

#[test]
fn refund_for_approvals_is_the_price_of_their_bytes() {
    let mut approvals: AssocMap<AccountId, u64> = AssocMap::new();
    approvals.insert(account("bob"), 0);
    approvals.insert(account("carol"), 1);
    let payment = refund_approved_account_ids(account("alice"), &approvals, 10).ok().unwrap();
    assert_eq!(payment.receiver_id.as_str(), "alice");
    assert_eq!(payment.amount, (15 + 17) * 10);
}

use nft_ledger::context::CallContext;
use nft_ledger::errors::{ErrorKind, LedgerError};
use nft_ledger::events::{EventLog, EventLogVariant, NftTransferLog};
use nft_ledger::internal::{refund_approved_account_ids_iter, refund_deposit};
use nft_ledger::nft_core::{reply_keeps_token, PromiseResult};

fn call(attached_deposit: u128, storage_byte_cost: u128) -> CallContext {
    CallContext {
        predecessor_account_id: account("alice"),
        signer_account_id: account("alice"),
        current_account_id: account("ledger.near"),
        attached_deposit,
        storage_byte_cost,
    }
}

#[test]
fn charge_refunds_what_is_paid_beyond_the_price() {
    assert_eq!(refund_deposit(10, &call(100, 7)), Ok(30));
    assert_eq!(refund_deposit(10, &call(70, 7)), Ok(0));
    assert_eq!(refund_deposit(0, &call(5, u128::MAX)), Ok(5));
    assert_eq!(refund_deposit(u64::MAX, &call(5, 0)), Ok(5));
}

#[test]
fn charge_fails_where_less_than_the_price_is_paid() {
    assert_eq!(
        refund_deposit(10, &call(69, 7)),
        Err(LedgerError::InsufficientCollateral { required: 70, available: 69 })
    );
    assert_eq!(
        refund_deposit(2, &call(u128::MAX, u128::MAX)),
        Err(LedgerError::InsufficientCollateral { required: u128::MAX, available: u128::MAX })
    );
}

#[test]
fn refund_for_a_row_of_accounts_counts_each_place() {
    let row = vec![account("bob"), account("carol"), account("bob")];
    let payment = refund_approved_account_ids_iter(account("alice"), &row, 3).ok().unwrap();
    assert_eq!(payment.receiver_id.as_str(), "alice");
    assert_eq!(payment.amount, (15 + 17 + 15) * 3);
    let nothing = refund_approved_account_ids_iter(account("alice"), &[], u128::MAX).ok().unwrap();
    assert_eq!(nothing.amount, 0);
    let too_much = refund_approved_account_ids_iter(account("alice"), &row, u128::MAX);
    assert_eq!(too_much.err(), Some(LedgerError::Overflow));
}

#[test]
fn refund_for_approvals_can_be_out_of_range() {
    let mut approvals: AssocMap<AccountId, u64> = AssocMap::new();
    let nothing = refund_approved_account_ids(account("alice"), &approvals, u128::MAX).ok().unwrap();
    assert_eq!(nothing.amount, 0);
    approvals.insert(account("bob"), 0);
    let too_much = refund_approved_account_ids(account("alice"), &approvals, u128::MAX / 14);
    assert_eq!(too_much.err(), Some(LedgerError::Overflow));
    let just_enough = refund_approved_account_ids(account("alice"), &approvals, u128::MAX / 15);
    assert_eq!(just_enough.ok().unwrap().amount, u128::MAX / 15 * 15);
}

#[test]
fn only_a_plain_false_keeps_the_token() {
    for reply in [&b"false"[..], b" false", b"false ", b"\t\r\n false \n\r\t"] {
        assert!(reply_keeps_token(&PromiseResult::Successful(reply.to_vec())));
    }
    for reply in [
        &b"true"[..],
        b" true ",
        b"",
        b" ",
        b"False",
        b"FALSE",
        b"fals",
        b"falsee",
        b"false,",
        b"false false",
        b"\"false\"",
        b"0",
        b"null",
        b"[false]",
        b"{\"false\":false}",
        b"\x0bfalse",
        b"false\x00",
        b"\xef\xbb\xbffalse",
    ] {
        assert!(!reply_keeps_token(&PromiseResult::Successful(reply.to_vec())));
    }
    assert!(!reply_keeps_token(&PromiseResult::Failed));
    assert!(!reply_keeps_token(&PromiseResult::NotReady));
}

#[test]
fn event_names_the_standard() {
    let event = EventLog::nft_transfer(NftTransferLog {
        authorized_id: None,
        old_owner_id: "alice".to_string(),
        new_owner_id: "bob".to_string(),
        token_ids: vec!["t1".to_string()],
        memo: Some("memo".to_string()),
    });
    assert_eq!(event.standard, "nep171");
    assert_eq!(event.version, "1.0.0");
    let EventLogVariant::NftTransfer(logs) = event.event;
    assert_eq!(logs.len(), 1);
    assert_eq!(logs[0].old_owner_id, "alice");
    assert_eq!(logs[0].new_owner_id, "bob");
    assert_eq!(logs[0].token_ids, vec!["t1".to_string()]);
    assert_eq!(logs[0].memo.as_deref(), Some("memo"));
    assert_eq!(logs[0].authorized_id, None);
}

#[test]
fn every_reason_has_its_class() {
    let classes = [
        (LedgerError::TokenNotFound, ErrorKind::NotFound),
        (LedgerError::ListingNotFound, ErrorKind::NotFound),
        (LedgerError::NotOwner, ErrorKind::Unauthorized),
        (LedgerError::Unauthorized, ErrorKind::Unauthorized),
        (LedgerError::PaymentRequired, ErrorKind::InsufficientCollateral),
        (
            LedgerError::InsufficientCollateral { required: 2, available: 1 },
            ErrorKind::InsufficientCollateral,
        ),
        (LedgerError::BelowMinimumDeposit, ErrorKind::InsufficientCollateral),
        (LedgerError::DuplicateToken, ErrorKind::InvalidRequest),
        (LedgerError::DuplicateSeries, ErrorKind::InvalidRequest),
        (LedgerError::SelfTransfer, ErrorKind::InvalidRequest),
        (LedgerError::InvalidRoyalty, ErrorKind::InvalidRequest),
        (LedgerError::TooManyPayouts, ErrorKind::InvalidRequest),
        (LedgerError::MalformedPayload, ErrorKind::InvalidRequest),
        (LedgerError::Overflow, ErrorKind::InvalidRequest),
        (LedgerError::NotAGenuineNotification, ErrorKind::NotAGenuineNotification),
    ];
    for (reason, class) in classes {
        assert_eq!(reason.kind(), class);
    }
}
