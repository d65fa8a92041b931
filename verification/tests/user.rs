use nft_ledger::account::AccountId;
use nft_ledger::contract::Contract;

fn account(id: &str) -> AccountId {
    AccountId::new(id.to_string()).unwrap()
}

#[test]
fn user_metadata_starts_empty() {
    let ledger = Contract::new_default(account("ledger.near"));
    assert!(ledger.get_user_metadata(account("alice")).is_none());
}

#[test]
fn setting_one_field_keeps_the_others() {
    let mut ledger = Contract::new_default(account("ledger.near"));
    assert!(ledger.set_user_name(account("alice"), Some("Alice".to_string())));
    let metadata = ledger.get_user_metadata(account("alice")).unwrap();
    assert_eq!(metadata.name.as_deref(), Some("Alice"));
    assert_eq!(metadata.image_url, None);
    assert_eq!(metadata.banner_url, None);

    assert!(ledger.set_user_image(account("alice"), Some("image".to_string())));
    assert!(ledger.set_user_banner_image(account("alice"), Some("banner".to_string())));
    let metadata = ledger.get_user_metadata(account("alice")).unwrap();
    assert_eq!(metadata.name.as_deref(), Some("Alice"));
    assert_eq!(metadata.image_url.as_deref(), Some("image"));
    assert_eq!(metadata.banner_url.as_deref(), Some("banner"));

    assert!(ledger.set_user_name(account("alice"), None));
    let metadata = ledger.get_user_metadata(account("alice")).unwrap();
    assert_eq!(metadata.name, None);
    assert_eq!(metadata.image_url.as_deref(), Some("image"));
    assert_eq!(metadata.banner_url.as_deref(), Some("banner"));
    assert!(ledger.get_user_metadata(account("bob")).is_none());
}
