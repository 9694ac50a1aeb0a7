//! The ledger engine: routes each transaction to the record store and the
//! account store, in order, and never stops on a bad one.

use vstd::prelude::*;
use crate::account_store::{
    account_matches, add_fits, add_to_balance_data, add_to_balance_spec, balances_of, balances_valid,
    charge_back_data, charge_back_fits, charge_back_spec, hold_data, hold_fits, hold_spec, release_data,
    release_fits, release_spec, AccountData, AccountStore, AccountView, HashMapAccountStore,
};
use crate::transaction_store::{
    add_transaction_spec, dispute_spec, records_valid, undispute_spec, DisputableTransactionData,
    HashMapTransactionStore, TransactionStore, UndisputeOutcome,
};
use crate::types::{
    Account, ClientId, DisputableTransaction, DisputedTransactionRecord, LedgerError,
    MonetaryTransactionRecord, Transaction, TransactionId,
};

verus! {

/// The state of the ledger: balances by value, and the recorded deposits.
pub struct LedgerView {
    pub accounts: Map<ClientId, AccountView>,
    pub records: Map<TransactionId, DisputableTransactionData>,
}

/// The amounts that a transaction carries are in range.
pub open spec fn transaction_valid(t: Transaction) -> bool {
    match t {
        Transaction::Deposit(r) => r.amount.wf(),
        Transaction::Withdrawal(r) => r.amount.wf(),
        _ => true,
    }
}

/// The ledger after a record-store step gave `records`, and an account-store
/// step gave `accounts`.
pub open spec fn after_accounts(
    v: LedgerView,
    records: Map<TransactionId, DisputableTransactionData>,
    accounts: Result<Map<ClientId, AccountView>, LedgerError>,
) -> (LedgerView, Result<(), LedgerError>) {
    match accounts {
        Ok(a) => (LedgerView { accounts: a, records }, Ok(())),
        Err(e) => (LedgerView { accounts: v.accounts, records }, Err(e)),
    }
}

/// One transaction applied to the ledger, by value: the new ledger and what
/// is reported for the transaction. A record-store step that fails changes
/// nothing; an account-store step comes only after a record-store step that
/// succeeded, which stands even where the account-store step fails.
pub open spec fn ledger_step(v: LedgerView, t: Transaction) -> (LedgerView, Result<(), LedgerError>) {
    match t {
        Transaction::Deposit(r) => match add_transaction_spec(v.records, DisputableTransaction::Deposit(r)) {
            Ok(records) => after_accounts(v, records, add_to_balance_spec(v.accounts, r.client, r.amount.units())),
            Err(e) => (v, Err(e)),
        },
        Transaction::Withdrawal(r) => after_accounts(
            v,
            v.records,
            add_to_balance_spec(v.accounts, r.client, -r.amount.units()),
        ),
        Transaction::Dispute(q) => match dispute_spec(v.records, q) {
            Ok((records, DisputableTransaction::Deposit(d))) => after_accounts(
                v,
                records,
                hold_spec(v.accounts, d.client, d.amount.units()),
            ),
            Err(e) => (v, Err(e)),
        },
        Transaction::Resolve(q) => match undispute_spec(v.records, q, UndisputeOutcome::Resolve) {
            Ok((records, DisputableTransaction::Deposit(d))) => after_accounts(
                v,
                records,
                release_spec(v.accounts, d.client, d.amount.units()),
            ),
            Err(e) => (v, Err(e)),
        },
        Transaction::Chargeback(q) => match undispute_spec(v.records, q, UndisputeOutcome::Chargeback) {
            Ok((records, DisputableTransaction::Deposit(d))) => after_accounts(
                v,
                records,
                charge_back_spec(v.accounts, d.client, d.amount.units()),
            ),
            Err(e) => (v, Err(e)),
        },
    }
}

/// The sums that the account-store step of `t` computes are exact in
/// rust_decimal.
pub open spec fn step_fits(
    data: Map<ClientId, AccountData>,
    records: Map<TransactionId, DisputableTransactionData>,
    t: Transaction,
) -> bool {
    match t {
        Transaction::Deposit(r) => add_fits(data, r.client, r.amount),
        Transaction::Withdrawal(r) => add_fits(data, r.client, r.amount.negated_spec()),
        Transaction::Dispute(q) => records.contains_key(q.transaction) ==> hold_fits(
            data,
            records[q.transaction].client,
            records[q.transaction].amount,
        ),
        Transaction::Resolve(q) => records.contains_key(q.transaction) ==> release_fits(
            data,
            records[q.transaction].client,
            records[q.transaction].amount,
        ),
        Transaction::Chargeback(q) => records.contains_key(q.transaction) ==> charge_back_fits(
            data,
            records[q.transaction].client,
            records[q.transaction].amount,
        ),
    }
}

/// The stored accounts after the account-store step of `t` succeeds, amounts
/// as rust_decimal writes the exact sums.
pub open spec fn step_data(
    data: Map<ClientId, AccountData>,
    records: Map<TransactionId, DisputableTransactionData>,
    t: Transaction,
) -> Map<ClientId, AccountData> {
    match t {
        Transaction::Deposit(r) => add_to_balance_data(data, r.client, r.amount),
        Transaction::Withdrawal(r) => add_to_balance_data(data, r.client, r.amount.negated_spec()),
        Transaction::Dispute(q) => hold_data(data, records[q.transaction].client, records[q.transaction].amount),
        Transaction::Resolve(q) => release_data(
            data,
            records[q.transaction].client,
            records[q.transaction].amount,
        ),
        Transaction::Chargeback(q) => charge_back_data(
            data,
            records[q.transaction].client,
            records[q.transaction].amount,
        ),
    }
}

/// How the transaction `t` takes the ledger `before`, with its accounts
/// stored as `data_before`, to `after` and `data_after`, reporting `r`: as
/// `ledger_step` says, the accounts stored as `step_data` gives where the
/// step succeeds and unchanged otherwise; or, only where that would succeed
/// but an account-store sum would be inexact, with that step rejected as
/// `AmountOverflow` and the accounts unchanged.
pub open spec fn transaction_step(
    before: LedgerView,
    data_before: Map<ClientId, AccountData>,
    t: Transaction,
    after: LedgerView,
    data_after: Map<ClientId, AccountData>,
    r: Result<(), LedgerError>,
) -> bool {
    let (w, expected) = ledger_step(before, t);
    ||| r == expected && after == w && data_after == if expected is Ok {
        step_data(data_before, before.records, t)
    } else {
        data_before
    }
    ||| expected is Ok && r == Err::<(), LedgerError>(LedgerError::AmountOverflow) && !step_fits(
        data_before,
        before.records,
        t,
    ) && after.records == w.records && after.accounts == before.accounts && data_after == data_before
}

/// How the input `input` takes the ledger: an input that could not be read
/// is reported as it came and changes nothing; a transaction goes as
/// `transaction_step` says.
pub open spec fn step_allows(
    before: LedgerView,
    data_before: Map<ClientId, AccountData>,
    input: Result<Transaction, LedgerError>,
    after: LedgerView,
    data_after: Map<ClientId, AccountData>,
    r: Result<(), LedgerError>,
) -> bool {
    match input {
        Err(e) => r == Err::<(), LedgerError>(e) && after == before && data_after == data_before,
        Ok(t) => transaction_step(before, data_before, t, after, data_after, r),
    }
}

/// Processes a series of transactions while keeping track of the ledger.
pub struct TransactionHandler {
    account_store: HashMapAccountStore,
    transaction_store: HashMapTransactionStore,
}

impl View for TransactionHandler {
    type V = LedgerView;

    closed spec fn view(&self) -> LedgerView {
        LedgerView {
            accounts: balances_of(self.account_store.data()),
            records: self.transaction_store.records(),
        }
    }
}

impl TransactionHandler {
    /// The handler's own consistency; it includes that no balance is below
    /// zero.
    pub closed spec fn inv(&self) -> bool {
        &&& self.account_store.inv()
        &&& balances_valid(self.account_store.data())
        &&& records_valid(self.transaction_store.records())
    }

    /// What the account store holds, amounts as they are written.
    pub closed spec fn account_data(&self) -> Map<ClientId, AccountData> {
        self.account_store.data()
    }

    /// A handler with no accounts and no records.
    pub fn new() -> (r: TransactionHandler)
        ensures
            r.inv(),
            r.account_data() == Map::<ClientId, AccountData>::empty(),
            r@.accounts == Map::<ClientId, AccountView>::empty(),
            r@.records == Map::<TransactionId, DisputableTransactionData>::empty(),
    {
        let r = TransactionHandler {
            account_store: HashMapAccountStore::new(),
            transaction_store: HashMapTransactionStore::new(),
        };
        proof {
            assert(balances_of(r.account_store.data()) =~= Map::<ClientId, AccountView>::empty());
        }
        r
    }

    /// A deposit: the funds go up, and the deposit is recorded so that it can
    /// be disputed.
    fn handle_deposit(&mut self, record: MonetaryTransactionRecord) -> (r: Result<(), LedgerError>)
        requires
            old(self).inv(),
            record.amount.wf(),
        ensures
            final(self).inv(),
            step_outcome(*old(self), Transaction::Deposit(record), *final(self), r),
    {
        match self.transaction_store.add_transaction(DisputableTransaction::Deposit(record)) {
            Ok(()) => self.account_store.add_to_balance(record.client, record.amount),
            Err(e) => Err(e),
        }
    }

    /// A withdrawal: the funds go down, if they suffice.
    fn handle_withdrawal(&mut self, record: MonetaryTransactionRecord) -> (r: Result<(), LedgerError>)
        requires
            old(self).inv(),
            record.amount.wf(),
        ensures
            final(self).inv(),
            step_outcome(*old(self), Transaction::Withdrawal(record), *final(self), r),
    {
        self.account_store.add_to_balance(record.client, record.amount.negated())
    }

    /// A dispute: where the deposit exists and belongs to the client, its
    /// amount is held.
    fn handle_dispute(&mut self, record: DisputedTransactionRecord) -> (r: Result<(), LedgerError>)
        requires
            old(self).inv(),
        ensures
            final(self).inv(),
            step_outcome(*old(self), Transaction::Dispute(record), *final(self), r),
    {
        match self.transaction_store.dispute_transaction(&record) {
            Ok(DisputableTransaction::Deposit(data)) => self.account_store.hold_amount(
                data.client,
                data.amount,
            ),
            Err(e) => Err(e),
        }
    }

    /// A resolve: where the deposit belongs to the client and is disputed,
    /// its amount is released into the available funds.
    fn handle_resolve(&mut self, record: DisputedTransactionRecord) -> (r: Result<(), LedgerError>)
        requires
            old(self).inv(),
        ensures
            final(self).inv(),
            step_outcome(*old(self), Transaction::Resolve(record), *final(self), r),
    {
        match self.transaction_store.undispute_transaction(&record, UndisputeOutcome::Resolve) {
            Ok(DisputableTransaction::Deposit(data)) => self.account_store.release_held_amount(
                data.client,
                data.amount,
            ),
            Err(e) => Err(e),
        }
    }

    /// A chargeback: where the deposit belongs to the client and is disputed,
    /// its amount is removed from the held funds and the account is locked.
    fn handle_chargeback(&mut self, record: DisputedTransactionRecord) -> (r: Result<(), LedgerError>)
        requires
            old(self).inv(),
        ensures
            final(self).inv(),
            step_outcome(*old(self), Transaction::Chargeback(record), *final(self), r),
    {
        match self.transaction_store.undispute_transaction(&record, UndisputeOutcome::Chargeback) {
            Ok(DisputableTransaction::Deposit(data)) => self.account_store.charge_back_amount(
                data.client,
                data.amount,
            ),
            Err(e) => Err(e),
        }
    }

    /// Applies one transaction.
    pub fn handle_transaction(&mut self, transaction: Transaction) -> (r: Result<(), LedgerError>)
        requires
            old(self).inv(),
            transaction_valid(transaction),
        ensures
            final(self).inv(),
            step_outcome(*old(self), transaction, *final(self), r),
    {
        match transaction {
            Transaction::Deposit(record) => self.handle_deposit(record),
            Transaction::Withdrawal(record) => self.handle_withdrawal(record),
            Transaction::Dispute(record) => self.handle_dispute(record),
            Transaction::Resolve(record) => self.handle_resolve(record),
            Transaction::Chargeback(record) => self.handle_chargeback(record),
        }
    }
}

impl Default for TransactionHandler {
    fn default() -> (r: TransactionHandler)
        ensures
            r.inv(),
            r.account_data() == Map::<ClientId, AccountData>::empty(),
            r@.accounts == Map::<ClientId, AccountView>::empty(),
            r@.records == Map::<TransactionId, DisputableTransactionData>::empty(),
    {
        TransactionHandler::new()
    }
}

/// How one transaction leaves the handler, as `transaction_step` says.
pub open spec fn step_outcome(
    before: TransactionHandler,
    t: Transaction,
    after: TransactionHandler,
    r: Result<(), LedgerError>,
) -> bool {
    transaction_step(before@, before.account_data(), t, after@, after.account_data(), r)
}

/// The inputs that carry a transaction carry amounts in range.
pub open spec fn inputs_valid(inputs: Seq<Result<Transaction, LedgerError>>) -> bool {
    forall|i: int|
        0 <= i < inputs.len() ==> (#[trigger] inputs[i] matches Ok(t) ==> transaction_valid(t))
}

/// `states`, with the accounts stored as `datas`, is a way through `inputs`
/// that reports `results`: one more state than inputs, each state's balances
/// those of its stored accounts, each next state allowed by the input and its
/// result.
pub open spec fn run_through(
    states: Seq<LedgerView>,
    datas: Seq<Map<ClientId, AccountData>>,
    inputs: Seq<Result<Transaction, LedgerError>>,
    results: Seq<Result<(), LedgerError>>,
) -> bool {
    &&& states.len() == inputs.len() + 1
    &&& datas.len() == inputs.len() + 1
    &&& results.len() == inputs.len()
    &&& forall|i: int| 0 <= i <= inputs.len() ==> #[trigger] states[i].accounts == balances_of(datas[i])
    &&& forall|i: int|
        0 <= i < inputs.len() ==> step_allows(
            states[i],
            datas[i],
            inputs[i],
            states[i + 1],
            datas[i + 1],
            #[trigger] results[i],
        )
}

/// The view of an account in a snapshot.
pub open spec fn snapshot_view(a: Account) -> AccountView {
    AccountView { available: a.available.units(), held: a.held.units(), locked: a.locked }
}

impl TransactionHandler {
    /// Applies every input in order; one that could not be read, or that is
    /// rejected, is reported and leaves the ledger to the next one. Gives one
    /// result for each input.
    pub fn handle_transactions(&mut self, transactions: Vec<Result<Transaction, LedgerError>>) -> (r: Vec<
        Result<(), LedgerError>,
    >)
        requires
            old(self).inv(),
            inputs_valid(transactions@),
        ensures
            final(self).inv(),
            r.len() == transactions.len(),
            exists|states: Seq<LedgerView>, datas: Seq<Map<ClientId, AccountData>>|
                #[trigger] run_through(states, datas, transactions@, r@) && states[0] == old(self)@
                    && datas[0] == old(self).account_data() && states[transactions.len() as int]
                    == final(self)@ && datas[transactions.len() as int] == final(self).account_data(),
    {
        let mut results: Vec<Result<(), LedgerError>> = Vec::new();
        let ghost mut states: Seq<LedgerView> = seq![self@];
        let ghost mut datas: Seq<Map<ClientId, AccountData>> = seq![self.account_data()];
        let mut i: usize = 0;
        while i < transactions.len()
            invariant
                self.inv(),
                inputs_valid(transactions@),
                i <= transactions.len(),
                results.len() == i,
                states.len() == i + 1,
                datas.len() == i + 1,
                states[0] == old(self)@,
                datas[0] == old(self).account_data(),
                states[i as int] == self@,
                datas[i as int] == self.account_data(),
                forall|k: int| 0 <= k <= i ==> #[trigger] states[k].accounts == balances_of(datas[k]),
                forall|k: int|
                    0 <= k < i ==> step_allows(
                        states[k],
                        datas[k],
                        transactions@[k],
                        states[k + 1],
                        datas[k + 1],
                        #[trigger] results@[k],
                    ),
            decreases transactions.len() - i,
        {
            let input = transactions[i];
            proof {
                assert(transactions@[i as int] == input);
            }
            let ghost before = *self;
            let ghost prior = results@;
            let result = match input {
                Ok(transaction) => self.handle_transaction(transaction),
                Err(e) => Err(e),
            };
            results.push(result);
            proof {
                states = states.push(self@);
                datas = datas.push(self.account_data());
                assert(step_allows(before@, before.account_data(), input, self@, self.account_data(), result));
                assert forall|k: int|
                    0 <= k < i + 1 implies step_allows(
                        states[k],
                        datas[k],
                        transactions@[k],
                        states[k + 1],
                        datas[k + 1],
                        #[trigger] results@[k],
                    ) by {
                    if k < i {
                        assert(results@[k] == prior[k]);
                    }
                }
                assert forall|k: int| 0 <= k <= i + 1 implies #[trigger] states[k].accounts == balances_of(
                    datas[k],
                ) by {
                    if k == i + 1 {
                        assert(states[k] == self@);
                    }
                }
            }
            i = i + 1;
        }
        proof {
            assert(run_through(states, datas, transactions@, results@));
        }
        results
    }

    /// A snapshot of every account, each client once, in no particular order.
    pub fn accounts(&self) -> (r: Vec<Account>)
        requires
            self.inv(),
        ensures
            forall|i: int|
                0 <= i < r.len() ==> self@.accounts.contains_key(r[i].client) && self@.accounts[r[i].client]
                    == snapshot_view(#[trigger] r[i]) && r[i].available.wf() && r[i].held.wf()
                    && account_matches(r[i], self.account_data()[r[i].client]),
            forall|c: ClientId|
                self@.accounts.contains_key(c) ==> exists|i: int|
                    0 <= i < r.len() && #[trigger] r[i].client == c,
            forall|i: int, j: int| 0 <= i < j < r.len() ==> r[i].client != r[j].client,
    {
        let r = self.account_store.accounts();
        proof {
            assert forall|i: int| 0 <= i < r.len() implies self@.accounts.contains_key(r[i].client)
                && self@.accounts[r[i].client] == snapshot_view(#[trigger] r[i]) && r[i].available.wf()
                && r[i].held.wf() by {
                assert(self.account_store.data().contains_key(r[i].client));
            }
        }
        r
    }
}

/// No balance of a handler is below zero: every handler that `new` makes, and
/// every one that the handling of transactions leaves, keeps `inv`.
pub proof fn lemma_balances_never_negative(h: &TransactionHandler)
    requires
        h.inv(),
    ensures
        forall|c: ClientId|
            #[trigger] h@.accounts.contains_key(c) ==> h@.accounts[c].available >= 0
                && h@.accounts[c].held >= 0,
{
    assert forall|c: ClientId| #[trigger] h@.accounts.contains_key(c) implies h@.accounts[c].available
        >= 0 && h@.accounts[c].held >= 0 by {
        assert(h.account_store.data().contains_key(c));
    }
}

} // verus!
