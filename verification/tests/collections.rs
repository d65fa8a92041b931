use nft_ledger::account::AccountId;
use nft_ledger::collections::{AssocMap, AssocSet, Duplicate, MapKey};

fn account(id: &str) -> AccountId {
    AccountId::new(id.to_string()).unwrap()
}

#[test]
fn map_keeps_each_key_once() {
    let mut map: AssocMap<String, u64> = AssocMap::new();
    assert!(map.is_empty());
    assert_eq!(map.insert("a".to_string(), 1), None);
    assert_eq!(map.insert("b".to_string(), 2), None);
    assert_eq!(map.insert("a".to_string(), 3), Some(1));
    assert_eq!(map.len(), 2);
    assert!(!map.is_empty());
    assert_eq!(map.get(&"a".to_string()), Some(&3));
    assert_eq!(map.get(&"b".to_string()), Some(&2));
    assert_eq!(map.get(&"c".to_string()), None);
    assert!(map.contains_key(&"b".to_string()));
    assert!(!map.contains_key(&"c".to_string()));
    // a key that is there keeps its place
    assert_eq!(map.key_at(0), "a");
    assert_eq!(*map.value_at(0), 3);
    assert_eq!(map.key_at(1), "b");
    assert_eq!(*map.value_at(1), 2);
}

#[test]
fn map_remove_keeps_the_order_of_the_rest() {
    let mut map: AssocMap<u64, u64> = AssocMap::new();
    for i in 0..5 {
        map.insert(i, 10 * i);
    }
    assert_eq!(map.remove(&2), Some(20));
    assert_eq!(map.remove(&2), None);
    assert_eq!(map.len(), 4);
    let keys: Vec<u64> = (0..map.len()).map(|i| *map.key_at(i)).collect();
    assert_eq!(keys, vec![0, 1, 3, 4]);
    let copy = map.duplicate();
    map.clear();
    assert!(map.is_empty());
    assert_eq!(copy.len(), 4);
    assert_eq!(copy.get(&4), Some(&40));
}

#[test]
fn set_keeps_each_item_once() {
    let mut set: AssocSet<AccountId> = AssocSet::new();
    assert!(set.is_empty());
    assert!(set.insert(account("alice")));
    assert!(set.insert(account("bob")));
    assert!(!set.insert(account("alice")));
    assert_eq!(set.len(), 2);
    assert!(set.contains(&account("bob")));
    assert!(!set.contains(&account("carol")));
    assert_eq!(set.item_at(0).as_str(), "alice");
    let copy = set.duplicate();
    assert!(set.remove(&account("alice")));
    assert!(!set.remove(&account("alice")));
    assert_eq!(set.len(), 1);
    assert_eq!(set.item_at(0).as_str(), "bob");
    assert_eq!(copy.len(), 2);
}

#[test]
fn keys_compare_by_what_they_hold() {
    assert!(account("alice").key_eq(&account("alice")));
    assert!(!account("alice").key_eq(&account("alice2")));
    assert!(account("alice").same_as(&account("alice").clone()));
    assert_eq!(account("alice.near").len(), 10);
    assert!("x".to_string().key_eq(&"x".to_string().duplicate()));
    assert!(7u64.key_eq(&7u64.duplicate()));
    assert_eq!(5u32.duplicate(), 5);
    assert_eq!(5u128.duplicate(), 5);
}
