use consent_ledger::chain::{AccountAddress, Address, ContractAddress};
use consent_ledger::store::{Store, StoreKey};

fn key(tag: u8) -> Address {
    Address::Account(AccountAddress([tag; 32]))
}

#[test]
fn store_starts_empty() {
    let store: Store<Address, u32> = Store::new();
    assert_eq!(store.get(&key(1)), None);
}

#[test]
fn store_insert_then_get() {
    let mut store: Store<Address, u32> = Store::new();
    store.insert(key(1), 10);
    store.insert(key(2), 20);
    assert_eq!(store.get(&key(1)), Some(&10));
    assert_eq!(store.get(&key(2)), Some(&20));
    assert_eq!(store.get(&key(3)), None);
}

#[test]
fn store_insert_replaces_the_value_of_a_key() {
    let mut store: Store<Address, u32> = Store::new();
    store.insert(key(1), 10);
    store.insert(key(2), 20);
    store.insert(key(1), 11);
    assert_eq!(store.get(&key(1)), Some(&11));
    assert_eq!(store.get(&key(2)), Some(&20));
    assert_eq!(store.remove(&key(1)), Some(11));
    assert_eq!(store.get(&key(1)), None);
    assert_eq!(store.remove(&key(1)), None);
}

#[test]
fn store_remove_returns_what_was_kept() {
    let mut store: Store<Address, u32> = Store::new();
    store.insert(key(1), 10);
    store.insert(key(2), 20);
    store.insert(key(3), 30);
    assert_eq!(store.remove(&key(2)), Some(20));
    assert_eq!(store.remove(&key(2)), None);
    assert_eq!(store.get(&key(1)), Some(&10));
    assert_eq!(store.get(&key(3)), Some(&30));
    assert_eq!(store.remove(&key(4)), None);
    assert_eq!(store.get(&key(1)), Some(&10));
    assert_eq!(store.get(&key(3)), Some(&30));
}

#[test]
fn store_keys_by_pairs() {
    let a = key(1);
    let b = Address::Contract(ContractAddress { index: 1, subindex: 1 });
    let mut store: Store<(Address, Address), u32> = Store::new();
    store.insert((a, b), 1);
    store.insert((b, a), 2);
    assert_eq!(store.get(&(a, b)), Some(&1));
    assert_eq!(store.get(&(b, a)), Some(&2));
    assert_eq!(store.get(&(a, a)), None);
    assert!((a, b).same_key(&(a, b)));
    assert!(!(a, b).same_key(&(b, a)));
    assert!(!(a, b).same_key(&(a, a)));
    assert!(a.same_key(&a));
    assert!(!a.same_key(&b));
}
