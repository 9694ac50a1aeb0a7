use payments_engine::account_store::{AccountStore, HashMapAccountStore};
use payments_engine::amount::Amount;
use payments_engine::csv_parser::{iter_transactions, parse_amount, parse_integer_field, raw_to_transaction, RawTransaction, RawTransactionType};
use payments_engine::csv_writer::write_accounts;
use payments_engine::process_transactions;
use payments_engine::transaction_handler::TransactionHandler;
use payments_engine::transaction_store::{HashMapTransactionStore, TransactionStore, UndisputeOutcome};
use payments_engine::types::{
    Account, DisputableTransaction, DisputedTransactionRecord, LedgerError, MonetaryTransactionRecord,
    Transaction,
};

fn deposit(client: u16, tx: u32, mantissa: i64, scale: u32) -> Result<Transaction, LedgerError> {
    Ok(Transaction::Deposit(MonetaryTransactionRecord {
        client,
        transaction: tx,
        amount: Amount::new(mantissa, scale),
    }))
}

fn withdrawal(client: u16, tx: u32, mantissa: i64, scale: u32) -> Result<Transaction, LedgerError> {
    Ok(Transaction::Withdrawal(MonetaryTransactionRecord {
        client,
        transaction: tx,
        amount: Amount::new(mantissa, scale),
    }))
}

fn claim(client: u16, transaction: u32) -> DisputedTransactionRecord {
    DisputedTransactionRecord { client, transaction }
}

fn run(inputs: Vec<Result<Transaction, LedgerError>>) -> (TransactionHandler, Vec<Result<(), LedgerError>>) {
    let mut handler = TransactionHandler::new();
    let results = handler.handle_transactions(inputs);
    (handler, results)
}

fn account(client: u16, available: (i64, u32), held: (i64, u32), locked: bool) -> Account {
    Account {
        client,
        available: Amount::new(available.0, available.1),
        held: Amount::new(held.0, held.1),
        locked,
    }
}

#[test]
fn balances_stay_non_negative_through_mixed_run() {
    let (handler, _) = run(vec![
        deposit(1, 1, 5, 0),
        withdrawal(1, 2, 4, 0),
        Ok(Transaction::Dispute(claim(1, 1))),
        withdrawal(1, 3, 1, 0),
        Ok(Transaction::Resolve(claim(1, 1))),
        withdrawal(2, 4, 1, 0),
        deposit(2, 5, 3, 0),
        Ok(Transaction::Dispute(claim(2, 5))),
        Ok(Transaction::Chargeback(claim(2, 5))),
        withdrawal(2, 6, 1, 0),
    ]);
    let accounts = handler.accounts();
    assert_eq!(accounts.len(), 2);
    for a in &accounts {
        assert!(!a.available.is_sign_negative());
        assert!(!a.held.is_sign_negative());
    }
}

#[test]
fn first_deposit_shows_amount_available() {
    let (handler, results) = run(vec![deposit(7, 1, 1234, 2)]);
    assert_eq!(results, vec![Ok(())]);
    assert_eq!(handler.accounts(), vec![account(7, (1234, 2), (0, 0), false)]);
}

#[test]
fn withdrawal_above_available_rejected() {
    let (handler, results) = run(vec![deposit(1, 1, 2, 0), withdrawal(1, 2, 3, 0)]);
    assert_eq!(results, vec![Ok(()), Err(LedgerError::InsufficientFunds)]);
    assert_eq!(handler.accounts(), vec![account(1, (2, 0), (0, 0), false)]);
}

#[test]
fn dispute_holds_only_disputed_deposit() {
    let (handler, _) = run(vec![
        deposit(1, 1, 2, 0),
        deposit(1, 2, 3, 0),
        Ok(Transaction::Dispute(claim(1, 2))),
    ]);
    assert_eq!(handler.accounts(), vec![account(1, (2, 0), (3, 0), false)]);
}

#[test]
fn resolve_restores_split_and_allows_new_dispute() {
    let (handler, results) = run(vec![
        deposit(1, 1, 2, 0),
        deposit(1, 2, 3, 0),
        Ok(Transaction::Dispute(claim(1, 2))),
        Ok(Transaction::Resolve(claim(1, 2))),
    ]);
    assert_eq!(results, vec![Ok(()), Ok(()), Ok(()), Ok(())]);
    assert_eq!(handler.accounts(), vec![account(1, (5, 0), (0, 0), false)]);

    let mut handler = handler;
    let again = handler.handle_transactions(vec![Ok(Transaction::Dispute(claim(1, 2)))]);
    assert_eq!(again, vec![Ok(())]);
    assert_eq!(handler.accounts(), vec![account(1, (2, 0), (3, 0), false)]);
}

#[test]
fn chargeback_locks_and_closes_deposit() {
    let (handler, results) = run(vec![
        deposit(1, 1, 2, 0),
        deposit(1, 2, 3, 0),
        Ok(Transaction::Dispute(claim(1, 2))),
        Ok(Transaction::Chargeback(claim(1, 2))),
        Ok(Transaction::Dispute(claim(1, 2))),
        deposit(1, 3, 1, 0),
    ]);
    assert_eq!(
        results,
        vec![
            Ok(()),
            Ok(()),
            Ok(()),
            Ok(()),
            Err(LedgerError::NotDisputable),
            Err(LedgerError::AccountLocked),
        ]
    );
    assert_eq!(handler.accounts(), vec![account(1, (2, 0), (0, 0), true)]);
}

#[test]
fn dispute_by_other_client_changes_nothing() {
    let (handler, results) = run(vec![
        deposit(1, 1, 2, 0),
        Ok(Transaction::Dispute(claim(2, 1))),
        Ok(Transaction::Resolve(claim(1, 1))),
    ]);
    assert_eq!(
        results,
        vec![Ok(()), Err(LedgerError::ClientMismatch), Err(LedgerError::NotDisputed)]
    );
    assert_eq!(handler.accounts(), vec![account(1, (2, 0), (0, 0), false)]);
}

#[test]
fn dispute_after_withdrawal_holds_what_is_left() {
    let (handler, results) = run(vec![
        deposit(1, 1, 5, 0),
        withdrawal(1, 2, 4, 0),
        Ok(Transaction::Dispute(claim(1, 1))),
        Ok(Transaction::Chargeback(claim(1, 1))),
    ]);
    assert_eq!(results, vec![Ok(()), Ok(()), Ok(()), Ok(())]);
    assert_eq!(handler.accounts(), vec![account(1, (0, 0), (0, 0), true)]);
}

#[test]
fn duplicate_deposit_changes_nothing() {
    let (handler, results) = run(vec![deposit(1, 1, 2, 0), deposit(1, 1, 9, 0)]);
    assert_eq!(results, vec![Ok(()), Err(LedgerError::DuplicateTransaction)]);
    assert_eq!(handler.accounts(), vec![account(1, (2, 0), (0, 0), false)]);

    let mut store = HashMapTransactionStore::new();
    let first = DisputableTransaction::Deposit(MonetaryTransactionRecord {
        client: 1,
        transaction: 1,
        amount: Amount::new(2, 0),
    });
    let second = DisputableTransaction::Deposit(MonetaryTransactionRecord {
        client: 3,
        transaction: 1,
        amount: Amount::new(9, 0),
    });
    store.add_transaction(first).unwrap();
    assert_eq!(store.add_transaction(second), Err(LedgerError::DuplicateTransaction));
    let DisputableTransaction::Deposit(record) = store.dispute_transaction(&claim(1, 1)).unwrap();
    assert_eq!(record.amount, Amount::new(2, 0));
}

#[test]
fn parse_failure_is_reported_and_skipped() {
    let (handler, results) = run(vec![Err(LedgerError::Malformed), deposit(1, 1, 2, 0)]);
    assert_eq!(results, vec![Err(LedgerError::Malformed), Ok(())]);
    assert_eq!(handler.accounts().len(), 1);
}

#[test]
fn each_store_error_has_its_input() {
    let mut store = HashMapAccountStore::new();
    assert_eq!(store.add_to_balance(1, Amount::new(-1, 0)), Err(LedgerError::NegativeOpeningBalance));
    assert_eq!(store.hold_amount(1, Amount::new(1, 0)), Err(LedgerError::UnknownClient));
    store.add_to_balance(1, Amount::new(1, 0)).unwrap();
    assert_eq!(store.hold_amount(1, Amount::new(-1, 0)), Err(LedgerError::NegativeAmount));
    assert_eq!(store.add_to_balance(1, Amount::new(-2, 0)), Err(LedgerError::InsufficientFunds));

    let mut records = HashMapTransactionStore::new();
    assert_eq!(records.dispute_transaction(&claim(1, 1)), Err(LedgerError::UnknownTransaction));
    assert_eq!(
        records.undispute_transaction(&claim(1, 1), UndisputeOutcome::Resolve),
        Err(LedgerError::UnknownTransaction)
    );
}

#[test]
fn sum_beyond_decimal_range_is_overflow() {
    let biggest = Amount::from_parts(79_228_162_514_264_337_593_543_950_335, 0).unwrap();
    let mut store = HashMapAccountStore::new();
    store.add_to_balance(1, biggest).unwrap();
    assert_eq!(store.add_to_balance(1, Amount::new(1, 0)), Err(LedgerError::AmountOverflow));
    assert_eq!(store.accounts(), vec![Account { client: 1, available: biggest, held: Amount::zero(), locked: false }]);
    assert_eq!(Amount::from_parts(79_228_162_514_264_337_593_543_950_336, 0), None);
    assert_eq!(Amount::from_parts(1, 29), None);
}

#[test]
fn exact_sums_and_comparisons() {
    let sum = Amount::new(15, 1).checked_sum(Amount::new(25, 2)).unwrap();
    assert_eq!(sum.mantissa, 175);
    assert_eq!(sum.scale, 2);
    let zero_sum = Amount::new(0, 3).checked_sum(Amount::new(15, 1)).unwrap();
    assert_eq!((zero_sum.mantissa, zero_sum.scale), (15, 1));
    let difference = Amount::new(2, 0).checked_difference(Amount::new(5, 1)).unwrap();
    assert_eq!((difference.mantissa, difference.scale), (15, 1));
    assert!(Amount::new(15, 1).less_than(&Amount::new(2, 0)));
    assert!(!Amount::new(20, 1).less_than(&Amount::new(2, 0)));
    assert_eq!(Amount::new(20, 1), Amount::new(2, 0));
    let m = Amount::new(3, 0).min(Amount::new(25, 1));
    assert_eq!((m.mantissa, m.scale), (25, 1));
}

#[test]
fn amounts_and_integers_read_from_text() {
    let chars = |s: &str| s.chars().collect::<Vec<char>>();
    let a = parse_amount(&chars("-12.50")).unwrap();
    assert_eq!((a.mantissa, a.scale), (-1250, 2));
    let e = parse_amount(&chars("1e2")).unwrap();
    assert_eq!(e, Amount::new(100, 0));
    assert!(parse_amount(&chars("one")).is_none());
    assert_eq!(parse_integer_field(&chars("42"), 0xFFFF), Some(42));
    assert_eq!(parse_integer_field(&chars("+7"), 0xFFFF), Some(7));
    assert_eq!(parse_integer_field(&chars("0x1F"), 0xFFFF), Some(31));
    assert_eq!(parse_integer_field(&chars("65535"), 0xFFFF), Some(65535));
    assert_eq!(parse_integer_field(&chars("65536"), 0xFFFF), None);
    assert_eq!(parse_integer_field(&chars("-1"), 0xFFFF), None);
    assert_eq!(parse_integer_field(&chars(""), 0xFFFF), None);
    assert_eq!(parse_integer_field(&chars("+"), 0xFFFF), None);
    assert_eq!(parse_integer_field(&chars("1a"), 0xFFFF), None);
}

#[test]
fn rows_follow_header_names() {
    let buffer = b"amount,tx,client,type\n1.5,9,4,deposit\n,9,4,dispute\n";
    let entries = iter_transactions(&buffer[..]);
    assert_eq!(
        entries,
        vec![
            deposit(4, 9, 15, 1),
            Ok(Transaction::Dispute(claim(4, 9))),
        ]
    );
    let no_header = iter_transactions(&b"deposit,1,1,1\n"[..]);
    assert_eq!(no_header, vec![]);
}

#[test]
fn raw_rows_need_amounts_for_money() {
    let raw = RawTransaction {
        transaction_type: RawTransactionType::Withdrawal,
        client: 1,
        transaction: 2,
        amount: None,
    };
    assert_eq!(raw_to_transaction(raw), Err(LedgerError::Malformed));
    let raw = RawTransaction {
        transaction_type: RawTransactionType::Resolve,
        client: 1,
        transaction: 2,
        amount: Some(Amount::new(3, 0)),
    };
    assert_eq!(raw_to_transaction(raw), Ok(Transaction::Resolve(claim(1, 2))));
}

#[test]
fn table_text_keeps_scales() {
    let accounts = vec![
        account(3, (150, 2), (0, 0), false),
        account(65535, (0, 0), (25, 1), true),
    ];
    let text = String::from_utf8(write_accounts(&accounts).unwrap()).unwrap();
    assert_eq!(
        text,
        "client,available,held,total,locked\n3,1.50,0,1.50,false\n65535,0,2.5,2.5,true\n"
    );
}

#[test]
fn whole_run_from_text() {
    let source = b"type,client,tx,amount\ndeposit,2,1,10\ndispute,2,1,\nchargeback,2,1,\n";
    let text = String::from_utf8(process_transactions(&source[..]).unwrap()).unwrap();
    assert_eq!(text, "client,available,held,total,locked\n2,0,0,0,true\n");
    let empty = process_transactions(&b""[..]).unwrap();
    assert!(empty.is_empty());
}
