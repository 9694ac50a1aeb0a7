use payments_engine::account_store::{AccountStore, HashMapAccountStore};
use payments_engine::amount::Amount;
use payments_engine::types::Account;

#[test]
fn empty_store() {
    let store = HashMapAccountStore::new();
    assert_eq!(store.accounts().len(), 0);
}

#[test]
fn single_positive_balance_change() {
    let mut store = HashMapAccountStore::new();

    store.add_to_balance(0, Amount::new(10, 1)).unwrap();

    let entries = store.accounts();
    assert_eq!(
        entries,
        vec![Account {
            client: 0,
            available: Amount::new(10, 1),
            held: Amount::zero(),
            locked: false,
        }]
    );
}

#[test]
fn single_negative_balance_change() {
    let mut store = HashMapAccountStore::new();

    store.add_to_balance(0, Amount::new(-10, 1)).unwrap_err();
    assert_eq!(store.accounts().len(), 0);
}

#[test]
fn hold_release_charge_from_non_existing_account() {
    let mut store = HashMapAccountStore::new();

    store.hold_amount(0, Amount::new(10, 1)).unwrap_err();
    store.release_held_amount(0, Amount::new(10, 1)).unwrap_err();
    store.charge_back_amount(0, Amount::new(10, 1)).unwrap_err();
    assert_eq!(store.accounts().len(), 0);
}

#[test]
fn hold_release_negative_amount() {
    let mut store = HashMapAccountStore::new();

    store.add_to_balance(0, Amount::new(20, 1)).unwrap();
    store.hold_amount(0, Amount::new(-10, 1)).unwrap_err();
    store.release_held_amount(0, Amount::new(-10, 1)).unwrap_err();
    store.charge_back_amount(0, Amount::new(-10, 1)).unwrap_err();
}

#[test]
fn hold_partial_amount() {
    let mut store = HashMapAccountStore::new();

    store.add_to_balance(0, Amount::new(20, 1)).unwrap();
    store.hold_amount(0, Amount::new(10, 1)).unwrap();

    let entries = store.accounts();
    assert_eq!(
        entries,
        vec![Account {
            client: 0,
            available: Amount::new(10, 1),
            held: Amount::new(10, 1),
            locked: false,
        }]
    );
}

#[test]
fn hold_more_than_available() {
    let mut store = HashMapAccountStore::new();

    store.add_to_balance(0, Amount::new(20, 1)).unwrap();
    store.hold_amount(0, Amount::new(50, 1)).unwrap();

    let entries = store.accounts();
    assert_eq!(
        entries,
        vec![Account {
            client: 0,
            available: Amount::zero(),
            held: Amount::new(20, 1),
            locked: false,
        }]
    );
}

#[test]
fn release_partial_amount() {
    let mut store = HashMapAccountStore::new();

    store.add_to_balance(0, Amount::new(20, 1)).unwrap();
    store.hold_amount(0, Amount::new(10, 1)).unwrap();
    store.release_held_amount(0, Amount::new(5, 1)).unwrap();

    let entries = store.accounts();
    assert_eq!(
        entries,
        vec![Account {
            client: 0,
            available: Amount::new(15, 1),
            held: Amount::new(5, 1),
            locked: false,
        }]
    );
}

#[test]
fn release_more_then_held() {
    let mut store = HashMapAccountStore::new();

    store.add_to_balance(0, Amount::new(20, 1)).unwrap();
    store.hold_amount(0, Amount::new(10, 1)).unwrap();
    store.release_held_amount(0, Amount::new(50, 1)).unwrap();

    let entries = store.accounts();
    assert_eq!(
        entries,
        vec![Account {
            client: 0,
            available: Amount::new(20, 1),
            held: Amount::zero(),
            locked: false,
        }]
    );
}

#[test]
fn charge_back_partial_amount() {
    let mut store = HashMapAccountStore::new();

    store.add_to_balance(0, Amount::new(20, 1)).unwrap();
    store.hold_amount(0, Amount::new(10, 1)).unwrap();
    store.charge_back_amount(0, Amount::new(5, 1)).unwrap();

    let entries = store.accounts();
    assert_eq!(
        entries,
        vec![Account {
            client: 0,
            available: Amount::new(10, 1),
            held: Amount::new(5, 1),
            locked: true,
        }]
    );
}

#[test]
fn charge_back_more_then_held() {
    let mut store = HashMapAccountStore::new();

    store.add_to_balance(0, Amount::new(20, 1)).unwrap();
    store.hold_amount(0, Amount::new(10, 1)).unwrap();
    store.charge_back_amount(0, Amount::new(50, 1)).unwrap();

    let entries = store.accounts();
    assert_eq!(
        entries,
        vec![Account {
            client: 0,
            available: Amount::new(10, 1),
            held: Amount::zero(),
            locked: true,
        }]
    );
}
