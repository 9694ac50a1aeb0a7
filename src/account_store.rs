//! Current balances of every client: the only place where money moves.

use vstd::prelude::*;
use std::collections::HashMap;
use crate::amount::{exact_sum, sum_fits, zero_amount, Amount};
use crate::types::{Account, ClientId, LedgerError};

verus! {

broadcast use vstd::std_specs::hash::group_hash_axioms;

/// The balances of one account, by value: amounts in units of `10^-28`.
pub struct AccountView {
    pub available: int,
    pub held: int,
    pub locked: bool,
}

/// What the store keeps for one client.
#[derive(Debug, Clone, Copy)]
pub struct AccountData {
    pub available: Amount,
    pub held: Amount,
    pub locked: bool,
}

/// The balances of one account, by value.
pub open spec fn view_of(d: AccountData) -> AccountView {
    AccountView { available: d.available.units(), held: d.held.units(), locked: d.locked }
}

/// The balances of every account, by value.
pub open spec fn balances_of(m: Map<ClientId, AccountData>) -> Map<ClientId, AccountView> {
    m.map_values(|d: AccountData| view_of(d))
}

/// Every amount is in range, and no balance is below zero.
pub open spec fn balances_valid(m: Map<ClientId, AccountData>) -> bool {
    forall|c: ClientId|
        #![trigger m[c]]
        m.contains_key(c) ==> {
            &&& m[c].available.wf()
            &&& m[c].held.wf()
            &&& m[c].available.units() >= 0
            &&& m[c].held.units() >= 0
        }
}

/// A snapshot `a` shows the account data `d`.
pub open spec fn account_matches(a: Account, d: AccountData) -> bool {
    &&& a.available == d.available
    &&& a.held == d.held
    &&& a.locked == d.locked
}

/// The smaller of two integers.
pub open spec fn min_int(a: int, b: int) -> int {
    if a <= b {
        a
    } else {
        b
    }
}

/// The smaller of two amounts, the first one where they are equal.
pub open spec fn smaller(a: Amount, b: Amount) -> Amount {
    if a.units() <= b.units() {
        a
    } else {
        b
    }
}

/// A deposit (positive) or a withdrawal (negative) on the account of `client`.
pub open spec fn add_to_balance_spec(v: Map<ClientId, AccountView>, client: ClientId, amount: int) -> Result<
    Map<ClientId, AccountView>,
    LedgerError,
> {
    if !v.contains_key(client) {
        if amount < 0 {
            Err(LedgerError::NegativeOpeningBalance)
        } else {
            Ok(v.insert(client, AccountView { available: amount, held: 0, locked: false }))
        }
    } else if v[client].locked {
        Err(LedgerError::AccountLocked)
    } else if v[client].available + amount < 0 {
        Err(LedgerError::InsufficientFunds)
    } else {
        Ok(
            v.insert(
                client,
                AccountView {
                    available: v[client].available + amount,
                    held: v[client].held,
                    locked: v[client].locked,
                },
            ),
        )
    }
}

/// Moves as much of `amount` as is available into the held funds.
pub open spec fn hold_spec(v: Map<ClientId, AccountView>, client: ClientId, amount: int) -> Result<
    Map<ClientId, AccountView>,
    LedgerError,
> {
    if amount < 0 {
        Err(LedgerError::NegativeAmount)
    } else if !v.contains_key(client) {
        Err(LedgerError::UnknownClient)
    } else {
        let x = min_int(v[client].available, amount);
        Ok(
            v.insert(
                client,
                AccountView {
                    available: v[client].available - x,
                    held: v[client].held + x,
                    locked: v[client].locked,
                },
            ),
        )
    }
}

/// Moves as much of `amount` as is held back into the available funds.
pub open spec fn release_spec(v: Map<ClientId, AccountView>, client: ClientId, amount: int) -> Result<
    Map<ClientId, AccountView>,
    LedgerError,
> {
    if amount < 0 {
        Err(LedgerError::NegativeAmount)
    } else if !v.contains_key(client) {
        Err(LedgerError::UnknownClient)
    } else {
        let x = min_int(v[client].held, amount);
        Ok(
            v.insert(
                client,
                AccountView {
                    available: v[client].available + x,
                    held: v[client].held - x,
                    locked: v[client].locked,
                },
            ),
        )
    }
}

/// Removes as much of `amount` as is held, and locks the account.
pub open spec fn charge_back_spec(v: Map<ClientId, AccountView>, client: ClientId, amount: int) -> Result<
    Map<ClientId, AccountView>,
    LedgerError,
> {
    if amount < 0 {
        Err(LedgerError::NegativeAmount)
    } else if !v.contains_key(client) {
        Err(LedgerError::UnknownClient)
    } else {
        let x = min_int(v[client].held, amount);
        Ok(
            v.insert(
                client,
                AccountView {
                    available: v[client].available,
                    held: v[client].held - x,
                    locked: true,
                },
            ),
        )
    }
}

/// The stored accounts after a deposit or withdrawal that succeeds, amounts
/// as rust_decimal writes the exact sums.
pub open spec fn add_to_balance_data(m: Map<ClientId, AccountData>, client: ClientId, amount: Amount) -> Map<
    ClientId,
    AccountData,
> {
    if !m.contains_key(client) {
        m.insert(client, AccountData { available: amount, held: zero_amount(), locked: false })
    } else {
        m.insert(
            client,
            AccountData {
                available: exact_sum(m[client].available, amount),
                held: m[client].held,
                locked: m[client].locked,
            },
        )
    }
}

/// The stored accounts after a hold that succeeds.
pub open spec fn hold_data(m: Map<ClientId, AccountData>, client: ClientId, amount: Amount) -> Map<
    ClientId,
    AccountData,
> {
    let d = m[client];
    let x = smaller(d.available, amount);
    m.insert(
        client,
        AccountData {
            available: exact_sum(d.available, x.negated_spec()),
            held: exact_sum(d.held, x),
            locked: d.locked,
        },
    )
}

/// The stored accounts after a release that succeeds.
pub open spec fn release_data(m: Map<ClientId, AccountData>, client: ClientId, amount: Amount) -> Map<
    ClientId,
    AccountData,
> {
    let d = m[client];
    let x = smaller(d.held, amount);
    m.insert(
        client,
        AccountData {
            available: exact_sum(d.available, x),
            held: exact_sum(d.held, x.negated_spec()),
            locked: d.locked,
        },
    )
}

/// The stored accounts after a chargeback that succeeds.
pub open spec fn charge_back_data(m: Map<ClientId, AccountData>, client: ClientId, amount: Amount) -> Map<
    ClientId,
    AccountData,
> {
    let d = m[client];
    m.insert(
        client,
        AccountData {
            available: d.available,
            held: exact_sum(d.held, smaller(d.held, amount).negated_spec()),
            locked: true,
        },
    )
}

/// The sum that a deposit or withdrawal computes is exact in rust_decimal.
pub open spec fn add_fits(m: Map<ClientId, AccountData>, client: ClientId, amount: Amount) -> bool {
    m.contains_key(client) ==> sum_fits(m[client].available, amount)
}

/// The two sums that a hold computes are exact in rust_decimal.
pub open spec fn hold_fits(m: Map<ClientId, AccountData>, client: ClientId, amount: Amount) -> bool {
    m.contains_key(client) ==> {
        let x = smaller(m[client].available, amount);
        sum_fits(m[client].available, x.negated_spec()) && sum_fits(m[client].held, x)
    }
}

/// The two sums that a release computes are exact in rust_decimal.
pub open spec fn release_fits(m: Map<ClientId, AccountData>, client: ClientId, amount: Amount) -> bool {
    m.contains_key(client) ==> {
        let x = smaller(m[client].held, amount);
        sum_fits(m[client].available, x) && sum_fits(m[client].held, x.negated_spec())
    }
}

/// The difference that a chargeback computes is exact in rust_decimal.
pub open spec fn charge_back_fits(m: Map<ClientId, AccountData>, client: ClientId, amount: Amount) -> bool {
    m.contains_key(client) ==> sum_fits(m[client].held, smaller(m[client].held, amount).negated_spec())
}

/// How an operation of the store ends, given what it is to do by value
/// (`expected`), the stored accounts that success leaves (`changed`), and
/// whether its sums are exact (`fits`): an error leaves the store as it was;
/// success gives the expected balances, stored as `changed`; and only where
/// the expected change would need an inexact sum, it may end in
/// `AmountOverflow` instead.
pub open spec fn store_outcome(
    expected: Result<Map<ClientId, AccountView>, LedgerError>,
    changed: Map<ClientId, AccountData>,
    fits: bool,
    before: Map<ClientId, AccountData>,
    after: Map<ClientId, AccountData>,
    r: Result<(), LedgerError>,
) -> bool {
    match expected {
        Ok(v) => if r is Ok {
            r == Ok::<(), LedgerError>(()) && after == changed && balances_of(after) == v
        } else {
            r == Err::<(), LedgerError>(LedgerError::AmountOverflow) && !fits && after == before
        },
        Err(e) => r == Err::<(), LedgerError>(e) && after == before,
    }
}

/// Stores the balances of client accounts.
pub trait AccountStore {
    /// What the store holds for each client.
    spec fn data(&self) -> Map<ClientId, AccountData>;

    /// The store's own consistency.
    spec fn inv(&self) -> bool;

    /// Applies a balance change: a positive amount is a deposit, a negative
    /// one a withdrawal.
    fn add_to_balance(&mut self, client: ClientId, amount: Amount) -> (r: Result<(), LedgerError>)
        requires
            old(self).inv(),
            balances_valid(old(self).data()),
            amount.wf(),
        ensures
            final(self).inv(),
            balances_valid(final(self).data()),
            store_outcome(
                add_to_balance_spec(balances_of(old(self).data()), client, amount.units()),
                add_to_balance_data(old(self).data(), client, amount),
                add_fits(old(self).data(), client, amount),
                old(self).data(),
                final(self).data(),
                r,
            ),
    ;

    /// Holds the given (non-negative) amount for a dispute, as far as the
    /// available funds reach.
    fn hold_amount(&mut self, client: ClientId, amount: Amount) -> (r: Result<(), LedgerError>)
        requires
            old(self).inv(),
            balances_valid(old(self).data()),
            amount.wf(),
        ensures
            final(self).inv(),
            balances_valid(final(self).data()),
            store_outcome(
                hold_spec(balances_of(old(self).data()), client, amount.units()),
                hold_data(old(self).data(), client, amount),
                hold_fits(old(self).data(), client, amount),
                old(self).data(),
                final(self).data(),
                r,
            ),
    ;

    /// Releases the given (non-negative) amount into the available funds, as
    /// far as the held funds reach.
    fn release_held_amount(&mut self, client: ClientId, amount: Amount) -> (r: Result<(), LedgerError>)
        requires
            old(self).inv(),
            balances_valid(old(self).data()),
            amount.wf(),
        ensures
            final(self).inv(),
            balances_valid(final(self).data()),
            store_outcome(
                release_spec(balances_of(old(self).data()), client, amount.units()),
                release_data(old(self).data(), client, amount),
                release_fits(old(self).data(), client, amount),
                old(self).data(),
                final(self).data(),
                r,
            ),
    ;

    /// Removes the given (non-negative) amount from the held funds, as far as
    /// they reach, and locks the account.
    fn charge_back_amount(&mut self, client: ClientId, amount: Amount) -> (r: Result<(), LedgerError>)
        requires
            old(self).inv(),
            balances_valid(old(self).data()),
            amount.wf(),
        ensures
            final(self).inv(),
            balances_valid(final(self).data()),
            store_outcome(
                charge_back_spec(balances_of(old(self).data()), client, amount.units()),
                charge_back_data(old(self).data(), client, amount),
                charge_back_fits(old(self).data(), client, amount),
                old(self).data(),
                final(self).data(),
                r,
            ),
    ;
}

/// Replacing one account changes the view of that account alone.
pub proof fn lemma_balances_insert(m: Map<ClientId, AccountData>, c: ClientId, d: AccountData)
    ensures
        balances_of(m.insert(c, d)) == balances_of(m).insert(c, view_of(d)),
{
    assert(balances_of(m.insert(c, d)) =~= balances_of(m).insert(c, view_of(d)));
}

/// An account store held in memory, in a `HashMap`, with the clients in the
/// order in which their accounts were opened.
pub struct HashMapAccountStore {
    data_store: HashMap<ClientId, AccountData>,
    clients: Vec<ClientId>,
}

impl HashMapAccountStore {
    /// An empty store.
    pub fn new() -> (r: HashMapAccountStore)
        ensures
            r.inv(),
            r.data() == Map::<ClientId, AccountData>::empty(),
            balances_valid(r.data()),
    {
        HashMapAccountStore { data_store: HashMap::new(), clients: Vec::new() }
    }

    /// The account of `client`, if it has one.
    fn find(&self, client: ClientId) -> (r: Option<AccountData>)
        ensures
            r matches Some(d) <==> self.data().contains_key(client),
            r matches Some(d) ==> d == self.data()[client],
    {
        match self.data_store.get(&client) {
            Some(d) => Some(*d),
            None => None,
        }
    }

    /// A snapshot of every account, each client once, in the order in which
    /// the accounts were opened.
    pub fn accounts(&self) -> (r: Vec<Account>)
        requires
            self.inv(),
        ensures
            r.len() == self.data().len(),
            forall|i: int|
                0 <= i < r.len() ==> self.data().contains_key(r[i].client) && account_matches(
                    #[trigger] r[i],
                    self.data()[r[i].client],
                ),
            forall|c: ClientId| self.data().contains_key(c) ==> exists|i: int| 0 <= i < r.len() && #[trigger] r[i].client == c,
            forall|i: int, j: int| 0 <= i < j < r.len() ==> r[i].client != r[j].client,
    {
        let mut r: Vec<Account> = Vec::new();
        let mut i: usize = 0;
        while i < self.clients.len()
            invariant
                self.inv(),
                i <= self.clients.len(),
                r.len() == i,
                forall|k: int| 0 <= k < i ==> r[k].client == self.clients[k],
                forall|k: int|
                    0 <= k < i ==> self.data().contains_key(r[k].client) && account_matches(
                        #[trigger] r[k],
                        self.data()[r[k].client],
                    ),
            decreases self.clients.len() - i,
        {
            let client = self.clients[i];
            proof {
                assert(self.clients@.contains(client));
            }
            let d = self.find(client);
            match d {
                Some(d) => {
                    r.push(Account { client, available: d.available, held: d.held, locked: d.locked });
                },
                None => {
                    proof {
                        assert(false);
                    }
                },
            }
            i = i + 1;
        }
        proof {
            assert forall|c: ClientId| self.data().contains_key(c) implies exists|i: int|
                0 <= i < r.len() && #[trigger] r[i].client == c by {
                assert(self.clients@.contains(c));
                let k = choose|k: int| 0 <= k < self.clients.len() && self.clients@[k] == c;
                assert(r[k].client == c);
            }
            assert forall|i: int, j: int| 0 <= i < j < r.len() implies r[i].client != r[j].client by {
                assert(r[i].client == self.clients@[i]);
                assert(r[j].client == self.clients@[j]);
            }
            lemma_clients_len(self);
        }
        r
    }

    /// Opens the account of a client that has none.
    fn open_account(&mut self, client: ClientId, d: AccountData)
        requires
            old(self).inv(),
            !old(self).data().contains_key(client),
        ensures
            final(self).inv(),
            final(self).data() == old(self).data().insert(client, d),
    {
        self.data_store.insert(client, d);
        self.clients.push(client);
        proof {
            let oc = old(self).clients@;
            assert(self.clients@ == oc.push(client));
            assert(!oc.contains(client));
            assert forall|c: ClientId|
                self.data_store@.contains_key(c) <==> self.clients@.contains(c) by {
                if oc.contains(c) {
                    let k = choose|k: int| 0 <= k < oc.len() && oc[k] == c;
                    assert(self.clients@[k] == c);
                }
                if self.clients@.contains(c) {
                    let k = choose|k: int| 0 <= k < self.clients.len() && self.clients@[k] == c;
                    if k < oc.len() {
                        assert(oc[k] == c);
                    }
                }
                if c == client {
                    assert(self.clients@[oc.len() as int] == client);
                }
            }
            assert forall|i: int, j: int|
                0 <= i < self.clients.len() && 0 <= j < self.clients.len() && i != j implies self.clients@[i]
                    != self.clients@[j] by {
                if i < oc.len() && j < oc.len() {
                } else if i < oc.len() {
                    assert(oc[i] != client);
                } else if j < oc.len() {
                    assert(oc[j] != client);
                }
            }
        }
    }

    /// Replaces the account of a client that has one.
    fn replace(&mut self, client: ClientId, d: AccountData)
        requires
            old(self).inv(),
            old(self).data().contains_key(client),
        ensures
            final(self).inv(),
            final(self).data() == old(self).data().insert(client, d),
    {
        self.data_store.insert(client, d);
        proof {
            assert(self.data().dom() =~= old(self).data().dom());
        }
    }
}

/// The list of clients is as long as the map of accounts.
proof fn lemma_clients_len(s: &HashMapAccountStore)
    requires
        s.inv(),
    ensures
        s.data().len() == s.clients.len(),
{
    s.clients@.unique_seq_to_set();
    assert(s.clients@.to_set() =~= s.data().dom());
}

impl AccountStore for HashMapAccountStore {
    closed spec fn data(&self) -> Map<ClientId, AccountData> {
        self.data_store@
    }

    closed spec fn inv(&self) -> bool {
        &&& self.clients@.no_duplicates()
        &&& forall|c: ClientId| self.data_store@.contains_key(c) <==> self.clients@.contains(c)
    }

    fn add_to_balance(&mut self, client: ClientId, amount: Amount) -> (r: Result<(), LedgerError>) {
        match self.find(client) {
            Some(d) => {
                if d.locked {
                    return Err(LedgerError::AccountLocked);
                }
                if d.available.less_than(&amount.negated()) {
                    return Err(LedgerError::InsufficientFunds);
                }
                match d.available.checked_sum(amount) {
                    Some(available) => {
                        let nd = AccountData { available, held: d.held, locked: d.locked };
                        self.replace(client, nd);
                        proof {
                            lemma_balances_insert(old(self).data(), client, nd);
                        }
                        Ok(())
                    },
                    None => Err(LedgerError::AmountOverflow),
                }
            },
            None => {
                if amount.is_sign_negative() {
                    return Err(LedgerError::NegativeOpeningBalance);
                }
                let nd = AccountData { available: amount, held: Amount::zero(), locked: false };
                self.open_account(client, nd);
                proof {
                    lemma_balances_insert(old(self).data(), client, nd);
                }
                Ok(())
            },
        }
    }

    fn hold_amount(&mut self, client: ClientId, amount: Amount) -> (r: Result<(), LedgerError>) {
        if amount.is_sign_negative() {
            return Err(LedgerError::NegativeAmount);
        }
        match self.find(client) {
            Some(d) => {
                let x = d.available.min(amount);
                match (d.available.checked_difference(x), d.held.checked_sum(x)) {
                    (Some(available), Some(held)) => {
                        let nd = AccountData { available, held, locked: d.locked };
                        self.replace(client, nd);
                        proof {
                            lemma_balances_insert(old(self).data(), client, nd);
                        }
                        Ok(())
                    },
                    _ => Err(LedgerError::AmountOverflow),
                }
            },
            None => Err(LedgerError::UnknownClient),
        }
    }

    fn release_held_amount(&mut self, client: ClientId, amount: Amount) -> (r: Result<(), LedgerError>) {
        if amount.is_sign_negative() {
            return Err(LedgerError::NegativeAmount);
        }
        match self.find(client) {
            Some(d) => {
                let x = d.held.min(amount);
                match (d.available.checked_sum(x), d.held.checked_difference(x)) {
                    (Some(available), Some(held)) => {
                        let nd = AccountData { available, held, locked: d.locked };
                        self.replace(client, nd);
                        proof {
                            lemma_balances_insert(old(self).data(), client, nd);
                        }
                        Ok(())
                    },
                    _ => Err(LedgerError::AmountOverflow),
                }
            },
            None => Err(LedgerError::UnknownClient),
        }
    }

    fn charge_back_amount(&mut self, client: ClientId, amount: Amount) -> (r: Result<(), LedgerError>) {
        if amount.is_sign_negative() {
            return Err(LedgerError::NegativeAmount);
        }
        match self.find(client) {
            Some(d) => {
                let x = d.held.min(amount);
                match d.held.checked_difference(x) {
                    Some(held) => {
                        let nd = AccountData { available: d.available, held, locked: true };
                        self.replace(client, nd);
                        proof {
                            lemma_balances_insert(old(self).data(), client, nd);
                        }
                        Ok(())
                    },
                    None => Err(LedgerError::AmountOverflow),
                }
            },
            None => Err(LedgerError::UnknownClient),
        }
    }
}

} // verus!
