use payments_engine::amount::Amount;
use payments_engine::transaction_store::{HashMapTransactionStore, TransactionStore, UndisputeOutcome};
use payments_engine::types::{DisputableTransaction, DisputedTransactionRecord, MonetaryTransactionRecord};

#[test]
fn add_dispute_resolve() {
    let mut store = HashMapTransactionStore::new();

    let deposit = DisputableTransaction::Deposit(MonetaryTransactionRecord {
        client: 0,
        transaction: 0,
        amount: Amount::new(10, 1),
    });
    store.add_transaction(deposit).unwrap();

    let dispute = DisputedTransactionRecord {
        client: 0,
        transaction: 0,
    };
    let DisputableTransaction::Deposit(record) = store.dispute_transaction(&dispute).unwrap();
    assert_eq!(record.amount, Amount::new(10, 1));

    let DisputableTransaction::Deposit(record) =
        store.undispute_transaction(&dispute, UndisputeOutcome::Resolve).unwrap();
    assert_eq!(record.amount, Amount::new(10, 1));

    // after a resolve, the deposit can be disputed again
    store.dispute_transaction(&dispute).unwrap();
}

#[test]
fn add_dispute_chargeback() {
    let mut store = HashMapTransactionStore::new();

    let deposit = DisputableTransaction::Deposit(MonetaryTransactionRecord {
        client: 0,
        transaction: 0,
        amount: Amount::new(10, 1),
    });
    store.add_transaction(deposit).unwrap();

    let dispute = DisputedTransactionRecord {
        client: 0,
        transaction: 0,
    };
    let DisputableTransaction::Deposit(record) = store.dispute_transaction(&dispute).unwrap();
    assert_eq!(record.amount, Amount::new(10, 1));

    let DisputableTransaction::Deposit(record) =
        store.undispute_transaction(&dispute, UndisputeOutcome::Chargeback).unwrap();
    assert_eq!(record.amount, Amount::new(10, 1));

    // after a chargeback, the deposit cannot be disputed again
    store.dispute_transaction(&dispute).unwrap_err();
}

#[test]
fn add_twice() {
    let mut store = HashMapTransactionStore::new();

    let deposit = DisputableTransaction::Deposit(MonetaryTransactionRecord {
        client: 0,
        transaction: 0,
        amount: Amount::new(10, 1),
    });
    store.add_transaction(deposit.clone()).unwrap();
    store.add_transaction(deposit).unwrap_err();
}

#[test]
fn dispute_without_add() {
    let mut store = HashMapTransactionStore::new();

    let dispute = DisputedTransactionRecord {
        client: 0,
        transaction: 0,
    };
    store.dispute_transaction(&dispute).unwrap_err();
}

#[test]
fn undispute_without_add() {
    let mut store = HashMapTransactionStore::new();

    let dispute = DisputedTransactionRecord {
        client: 0,
        transaction: 0,
    };
    store.undispute_transaction(&dispute, UndisputeOutcome::Chargeback).unwrap_err();
}

#[test]
fn undispute_without_dispute() {
    let mut store = HashMapTransactionStore::new();

    let deposit = DisputableTransaction::Deposit(MonetaryTransactionRecord {
        client: 0,
        transaction: 0,
        amount: Amount::new(10, 1),
    });
    store.add_transaction(deposit.clone()).unwrap();

    let dispute = DisputedTransactionRecord {
        client: 0,
        transaction: 0,
    };
    store.undispute_transaction(&dispute, UndisputeOutcome::Chargeback).unwrap_err();
}
