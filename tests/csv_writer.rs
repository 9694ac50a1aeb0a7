use payments_engine::amount::Amount;
use payments_engine::csv_writer::write_accounts;
use payments_engine::types::Account;

#[test]
fn empty_list() {
    let accounts: Vec<Account> = vec![];

    let buffer = write_accounts(&accounts).unwrap();
    let data = String::from_utf8(buffer).unwrap();
    assert_eq!(&data, "");
}

#[test]
fn single_account() {
    let accounts = vec![Account {
        client: 0,
        available: Amount::new(10, 1),
        held: Amount::new(20, 1),
        locked: true,
    }];

    let buffer = write_accounts(&accounts).unwrap();
    let data = String::from_utf8(buffer).unwrap();
    assert_eq!(
        &data,
        r#"client,available,held,total,locked
0,1.0,2.0,3.0,true
"#
    );
}
