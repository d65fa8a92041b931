use nft_ledger::account::AccountId;

#[test]
fn account_id_accepts_valid_names() {
    for id in ["aa", "a-a", "alice", "bob.near", "b-o_w_e-n", "100", "0o"] {
        let account = AccountId::new(id.to_string());
        assert!(account.is_some(), "{}", id);
        assert_eq!(account.unwrap().as_str(), id);
    }
}

#[test]
fn account_id_rejects_invalid_names() {
    for id in ["a", "A", "Abc", "-near", "near-", "near.", ".near", "a..b", "a_-b", "hello world", ""] {
        assert!(AccountId::new(id.to_string()).is_none(), "{}", id);
    }
    let long = "a".repeat(65);
    assert!(AccountId::new(long).is_none());
    let longest = "a".repeat(64);
    assert!(AccountId::new(longest).is_some());
}
