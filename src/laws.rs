//! What holds of every run of the ledger, stated over `ledger_step`.

use vstd::prelude::*;
use crate::account_store::{charge_back_spec, hold_spec, min_int, release_spec, AccountView};
use crate::account_store::AccountData;
use crate::transaction_handler::{ledger_step, step_fits, transaction_step, LedgerView};
use crate::transaction_store::DisputeState;
use crate::types::{
    ClientId, DisputedTransactionRecord, LedgerError, MonetaryTransactionRecord, Transaction, TransactionId,
};

verus! {

/// No balance is below zero.
pub open spec fn balances_nonnegative(accounts: Map<ClientId, AccountView>) -> bool {
    forall|c: ClientId|
        #[trigger] accounts.contains_key(c) ==> accounts[c].available >= 0 && accounts[c].held >= 0
}

/// A deposit of a non-negative amount, under a new identifier, for a client
/// without an account opens the account with that amount available, nothing
/// held, and not locked.
pub proof fn lemma_first_deposit_opens_account(v: LedgerView, r: MonetaryTransactionRecord)
    requires
        !v.accounts.contains_key(r.client),
        !v.records.contains_key(r.transaction),
        r.amount.units() >= 0,
    ensures
        ledger_step(v, Transaction::Deposit(r)).1 == Ok::<(), LedgerError>(()),
        ledger_step(v, Transaction::Deposit(r)).0.accounts[r.client] == (AccountView {
            available: r.amount.units(),
            held: 0,
            locked: false,
        }),
{
}

/// A dispute followed by a resolve of the same deposit, both accepted, gives
/// back the ledger as it was before the dispute: the same available and held
/// funds, and the deposit open to a new dispute. This needs that the dispute
/// could hold the whole amount, or that nothing else was held; otherwise the
/// release, which is capped by the held funds only, can release more than the
/// hold took.
pub proof fn lemma_dispute_then_resolve_restores(v: LedgerView, q: DisputedTransactionRecord)
    requires
        balances_nonnegative(v.accounts),
        ledger_step(v, Transaction::Dispute(q)).1 is Ok,
        ledger_step(ledger_step(v, Transaction::Dispute(q)).0, Transaction::Resolve(q)).1 is Ok,
        v.records.contains_key(q.transaction) && v.accounts.contains_key(v.records[q.transaction].client)
            ==> (v.accounts[v.records[q.transaction].client].available
            >= v.records[q.transaction].amount.units() || v.accounts[v.records[q.transaction].client].held
            == 0),
    ensures
        ledger_step(ledger_step(v, Transaction::Dispute(q)).0, Transaction::Resolve(q)).0 == v,
        v.records[q.transaction].state == DisputeState::NotDisputed,
        ledger_step(
            ledger_step(ledger_step(v, Transaction::Dispute(q)).0, Transaction::Resolve(q)).0,
            Transaction::Dispute(q),
        ).1 is Ok,
{
    let v1 = ledger_step(v, Transaction::Dispute(q)).0;
    let v2 = ledger_step(v1, Transaction::Resolve(q)).0;
    let t = q.transaction;
    let c = v.records[t].client;
    assert(v2.records =~= v.records);
    assert(v2.accounts =~= v.accounts);
}

/// A dispute followed by a chargeback of the same deposit, both accepted,
/// takes the charged amount (the deposit's, capped by the held funds) out of
/// the held funds, locks the account, and leaves the deposit closed to any
/// further dispute.
pub proof fn lemma_dispute_then_chargeback_locks(v: LedgerView, q: DisputedTransactionRecord)
    requires
        ledger_step(v, Transaction::Dispute(q)).1 is Ok,
        ledger_step(ledger_step(v, Transaction::Dispute(q)).0, Transaction::Chargeback(q)).1 is Ok,
    ensures
        ({
            let v1 = ledger_step(v, Transaction::Dispute(q)).0;
            let v2 = ledger_step(v1, Transaction::Chargeback(q)).0;
            let c = v.records[q.transaction].client;
            let a = v.records[q.transaction].amount.units();
            &&& v2.accounts[c].held == v1.accounts[c].held - min_int(v1.accounts[c].held, a)
            &&& v2.accounts[c].available == v1.accounts[c].available
            &&& v2.accounts[c].locked
            &&& ledger_step(v2, Transaction::Dispute(q)) == (v2, Err::<(), LedgerError>(LedgerError::NotDisputable))
        }),
{
}

/// A dispute that names another client than the deposit's is rejected and
/// changes neither the records nor the balances.
pub proof fn lemma_dispute_by_other_client_rejected(v: LedgerView, q: DisputedTransactionRecord)
    requires
        v.records.contains_key(q.transaction),
        v.records[q.transaction].client != q.client,
    ensures
        ledger_step(v, Transaction::Dispute(q)) == (v, Err::<(), LedgerError>(LedgerError::ClientMismatch)),
{
}

/// Holding, releasing and charging back a non-negative amount on an account
/// never fail and never go below zero: each moves the amount capped by the
/// funds it takes from (available for a hold, held for the others).
pub proof fn lemma_hold_release_charge_back_clamp(v: Map<ClientId, AccountView>, c: ClientId, amount: int)
    requires
        balances_nonnegative(v),
        v.contains_key(c),
        amount >= 0,
    ensures
        ({
            let a = v[c];
            let h = hold_spec(v, c, amount);
            let r = release_spec(v, c, amount);
            let k = charge_back_spec(v, c, amount);
            &&& h is Ok && r is Ok && k is Ok
            &&& balances_nonnegative(h->Ok_0) && balances_nonnegative(r->Ok_0) && balances_nonnegative(k->Ok_0)
            &&& h->Ok_0[c].available == a.available - min_int(a.available, amount)
            &&& h->Ok_0[c].held == a.held + min_int(a.available, amount)
            &&& r->Ok_0[c].available == a.available + min_int(a.held, amount)
            &&& r->Ok_0[c].held == a.held - min_int(a.held, amount)
            &&& k->Ok_0[c].available == a.available
            &&& k->Ok_0[c].held == a.held - min_int(a.held, amount)
            &&& k->Ok_0[c].locked
        }),
{
}

/// A deposit under an identifier that is recorded already is rejected and
/// leaves the recorded deposit and every balance unchanged.
pub proof fn lemma_duplicate_deposit_rejected(v: LedgerView, r: MonetaryTransactionRecord)
    requires
        v.records.contains_key(r.transaction),
    ensures
        ledger_step(v, Transaction::Deposit(r)) == (v, Err::<(), LedgerError>(LedgerError::DuplicateTransaction)),
{
}

/// Where the sums of an account-store step are exact, the handler's step is
/// exactly `ledger_step`: the escape to `AmountOverflow` is closed.
pub proof fn lemma_exact_step_is_ledger_step(
    before: LedgerView,
    data_before: Map<ClientId, AccountData>,
    t: Transaction,
    after: LedgerView,
    data_after: Map<ClientId, AccountData>,
    r: Result<(), LedgerError>,
)
    requires
        transaction_step(before, data_before, t, after, data_after, r),
        step_fits(data_before, before.records, t),
    ensures
        (after, r) == ledger_step(before, t),
{
}

/// A deposit that was charged back stays so: no transaction changes its
/// record again.
pub proof fn lemma_chargeback_is_final(v: LedgerView, tx: TransactionId, t: Transaction)
    requires
        v.records.contains_key(tx),
        v.records[tx].state == DisputeState::ChargebackOccurred,
    ensures
        ledger_step(v, t).0.records.contains_key(tx),
        ledger_step(v, t).0.records[tx] == v.records[tx],
{
}

} // verus!
