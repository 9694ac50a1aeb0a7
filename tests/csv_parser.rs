use payments_engine::amount::Amount;
use payments_engine::csv_parser::iter_transactions;
use payments_engine::types::{DisputedTransactionRecord, MonetaryTransactionRecord, Transaction};

#[test]
fn empty_file() {
    let buffer = br#""#;
    let count = iter_transactions(&buffer[..]).len();
    assert_eq!(count, 0);
}

#[test]
fn single_line() {
    let buffer = br#"
type, client, tx, amount
deposit, 0, 1, 2
"#;
    let entries: Vec<_> = iter_transactions(&buffer[..]).into_iter().map(|r| r.unwrap()).collect();
    assert_eq!(
        entries,
        vec![Transaction::Deposit(MonetaryTransactionRecord {
            client: 0,
            transaction: 1,
            amount: Amount::new(2, 0)
        })]
    );
}

#[test]
fn all_different_transactions() {
    let buffer = br#"
type, client, tx, amount
deposit, 0, 1, 2.5
withdrawal, 3, 4, -5.1
dispute, 6, 7,
resolve, 8, 9,
chargeback, 10, 11,
"#;
    let entries: Vec<_> = iter_transactions(&buffer[..]).into_iter().map(|r| r.unwrap()).collect();
    assert_eq!(
        entries,
        vec![
            Transaction::Deposit(MonetaryTransactionRecord {
                client: 0,
                transaction: 1,
                amount: Amount::new(25, 1)
            }),
            Transaction::Withdrawal(MonetaryTransactionRecord {
                client: 3,
                transaction: 4,
                amount: Amount::new(-51, 1)
            }),
            Transaction::Dispute(DisputedTransactionRecord {
                client: 6,
                transaction: 7,
            }),
            Transaction::Resolve(DisputedTransactionRecord {
                client: 8,
                transaction: 9,
            }),
            Transaction::Chargeback(DisputedTransactionRecord {
                client: 10,
                transaction: 11,
            })
        ]
    );
}

#[test]
fn all_mixed_in_errors() {
    let buffer = br#"
type, client, tx, amount
deposit, 0, 1, 2
withdrawal, 3, 4
dispute, 6, 7, 4
dance, 8, 9,
chargeback, 10, 11,
"#;
    let entries = iter_transactions(&buffer[..]);
    assert!(entries[0].is_ok()); // all good
    assert!(entries[1].is_err()); // no amount
    assert!(entries[2].is_ok()); // no amount needed but ok
    assert!(entries[3].is_err()); // unsupported type
    assert!(entries[4].is_ok()); // all good
}
