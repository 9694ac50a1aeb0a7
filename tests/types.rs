use payments_engine::amount::Amount;
use payments_engine::types::Account;

#[test]
fn test_total() {
    let account = Account {
        client: 0,
        available: Amount::new(10, 1),
        held: Amount::new(20, 1),
        locked: false,
    };
    assert_eq!(account.total(), Some(Amount::new(30, 1)));
}
