use payments_engine::amount::Amount;
use payments_engine::transaction_handler::TransactionHandler;
use payments_engine::types::{Account, DisputedTransactionRecord, MonetaryTransactionRecord, Transaction};

#[test]
fn single_deposit() {
    let mut handler = TransactionHandler::new();

    let transactions = vec![Transaction::Deposit(MonetaryTransactionRecord {
        client: 0,
        transaction: 0,
        amount: Amount::new(2, 0),
    })];

    handler.handle_transactions(transactions.into_iter().map(|t| Ok(t)).collect());

    let accounts = handler.accounts();
    assert_eq!(
        accounts,
        vec![Account {
            client: 0,
            available: Amount::new(20, 1),
            held: Amount::zero(),
            locked: false,
        }]
    );
}

#[test]
fn deposit_then_withdraw() {
    let mut handler = TransactionHandler::new();

    let transactions = vec![
        Transaction::Deposit(MonetaryTransactionRecord {
            client: 0,
            transaction: 0,
            amount: Amount::new(20, 1),
        }),
        Transaction::Withdrawal(MonetaryTransactionRecord {
            client: 0,
            transaction: 0,
            amount: Amount::new(10, 1),
        }),
    ];

    handler.handle_transactions(transactions.into_iter().map(|t| Ok(t)).collect());

    let accounts = handler.accounts();
    assert_eq!(
        accounts,
        vec![Account {
            client: 0,
            available: Amount::new(10, 1),
            held: Amount::zero(),
            locked: false,
        }]
    );
}

#[test]
fn deposit_then_withdraw_more_than_available() {
    let mut handler = TransactionHandler::new();

    let transactions = vec![
        Transaction::Deposit(MonetaryTransactionRecord {
            client: 0,
            transaction: 0,
            amount: Amount::new(20, 1),
        }),
        Transaction::Withdrawal(MonetaryTransactionRecord {
            client: 0,
            transaction: 0,
            amount: Amount::new(30, 1),
        }),
    ];

    handler.handle_transactions(transactions.into_iter().map(|t| Ok(t)).collect());

    let accounts = handler.accounts();
    assert_eq!(
        accounts,
        vec![Account {
            client: 0,
            available: Amount::new(20, 1),
            held: Amount::zero(),
            locked: false,
        }]
    );
}

#[test]
fn deposit_dispute() {
    let mut handler = TransactionHandler::new();

    let transactions = vec![
        Transaction::Deposit(MonetaryTransactionRecord {
            client: 0,
            transaction: 0,
            amount: Amount::new(20, 1),
        }),
        Transaction::Deposit(MonetaryTransactionRecord {
            client: 0,
            transaction: 1,
            amount: Amount::new(30, 1),
        }),
        Transaction::Dispute(DisputedTransactionRecord {
            client: 0,
            transaction: 1,
        }),
    ];

    handler.handle_transactions(transactions.into_iter().map(|t| Ok(t)).collect());

    let accounts = handler.accounts();
    assert_eq!(
        accounts,
        vec![Account {
            client: 0,
            available: Amount::new(20, 1),
            held: Amount::new(30, 1),
            locked: false,
        }]
    );
}

#[test]
fn deposit_dispute_resolve() {
    let mut handler = TransactionHandler::new();

    let transactions = vec![
        Transaction::Deposit(MonetaryTransactionRecord {
            client: 0,
            transaction: 0,
            amount: Amount::new(20, 1),
        }),
        Transaction::Dispute(DisputedTransactionRecord {
            client: 0,
            transaction: 0,
        }),
        Transaction::Resolve(DisputedTransactionRecord {
            client: 0,
            transaction: 0,
        }),
    ];

    handler.handle_transactions(transactions.into_iter().map(|t| Ok(t)).collect());

    let accounts = handler.accounts();
    assert_eq!(
        accounts,
        vec![Account {
            client: 0,
            available: Amount::new(20, 1),
            held: Amount::zero(),
            locked: false,
        }]
    );
}

#[test]
fn deposit_dispute_charge_back() {
    let mut handler = TransactionHandler::new();

    let transactions = vec![
        Transaction::Deposit(MonetaryTransactionRecord {
            client: 0,
            transaction: 0,
            amount: Amount::new(20, 1),
        }),
        Transaction::Dispute(DisputedTransactionRecord {
            client: 0,
            transaction: 0,
        }),
        Transaction::Chargeback(DisputedTransactionRecord {
            client: 0,
            transaction: 0,
        }),
    ];

    handler.handle_transactions(transactions.into_iter().map(|t| Ok(t)).collect());

    let accounts = handler.accounts();
    assert_eq!(
        accounts,
        vec![Account {
            client: 0,
            available: Amount::zero(),
            held: Amount::zero(),
            locked: true,
        }]
    );
}
