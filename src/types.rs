//! The records that flow through the ledger, and its errors.

use vstd::prelude::*;
use crate::amount::Amount;

verus! {

/// Identifies a client account.
pub type ClientId = u16;

/// Identifies a transaction; unique over all clients.
pub type TransactionId = u32;

/// Money flowing towards or from a client account.
#[derive(Debug, Clone, Copy, PartialEq)]
pub struct MonetaryTransactionRecord {
    pub client: ClientId,
    pub transaction: TransactionId,
    pub amount: Amount,
}

/// Refers to an earlier deposit, for the handling of a dispute claim.
#[derive(Debug, Clone, Copy, PartialEq, Eq, Structural)]
pub struct DisputedTransactionRecord {
    pub client: ClientId,
    pub transaction: TransactionId,
}

/// A transaction as it occurs in the input.
#[derive(Debug, Clone, Copy, PartialEq)]
pub enum Transaction {
    Deposit(MonetaryTransactionRecord),
    Withdrawal(MonetaryTransactionRecord),
    Dispute(DisputedTransactionRecord),
    Resolve(DisputedTransactionRecord),
    Chargeback(DisputedTransactionRecord),
}

/// The transactions that can be disputed: deposits only.
#[derive(Debug, Clone, Copy, PartialEq)]
pub enum DisputableTransaction {
    Deposit(MonetaryTransactionRecord),
}

/// The funds of one client: available and held, and whether the account is
/// locked after a chargeback.
#[derive(Debug, Clone, Copy, PartialEq)]
pub struct Account {
    pub client: ClientId,
    pub available: Amount,
    pub held: Amount,
    pub locked: bool,
}

/// Why a transaction was not applied.
#[derive(Debug, Clone, Copy, PartialEq, Eq, Structural)]
pub enum LedgerError {
    /// The input record could not be read as a transaction.
    Malformed,
    /// A client without an account cannot start with a negative balance.
    NegativeOpeningBalance,
    /// A locked account takes no balance change.
    AccountLocked,
    /// The change would take the available funds below zero.
    InsufficientFunds,
    /// Holding, releasing or charging back takes no negative amount.
    NegativeAmount,
    /// The client has no account.
    UnknownClient,
    /// The result does not fit an exact decimal.
    AmountOverflow,
    /// A transaction with this identifier was recorded before.
    DuplicateTransaction,
    /// No deposit was recorded under this identifier.
    UnknownTransaction,
    /// The deposit belongs to another client.
    ClientMismatch,
    /// The deposit is disputed already, or was charged back.
    NotDisputable,
    /// The deposit is not under dispute.
    NotDisputed,
}

impl Account {
    /// The total funds of the client: available and held, if that sum is an
    /// exact decimal.
    pub fn total(&self) -> (r: Option<Amount>)
        requires
            self.available.wf(),
            self.held.wf(),
        ensures
            r is Some ==> r->0.wf() && r->0.units() == self.available.units() + self.held.units(),
            r is Some ==> r->0 == crate::amount::exact_sum(self.available, self.held),
            crate::amount::sum_fits(self.available, self.held) ==> r is Some,
    {
        self.available.checked_sum(self.held)
    }
}

} // verus!
