//! The deposits accepted so far, with the dispute lifecycle of each.

use vstd::prelude::*;
use std::collections::HashMap;
use crate::amount::Amount;
use crate::types::{
    ClientId, DisputableTransaction, DisputedTransactionRecord, LedgerError,
    MonetaryTransactionRecord, TransactionId,
};

verus! {

broadcast use vstd::std_specs::hash::group_hash_axioms;

/// Where a recorded deposit stands in its dispute lifecycle.
#[derive(Debug, Clone, Copy, PartialEq, Eq, Structural)]
pub enum DisputeState {
    NotDisputed,
    Disputed,
    ChargebackOccurred,
}

/// How a dispute ends.
#[derive(Debug, Clone, Copy, PartialEq, Eq, Structural)]
pub enum UndisputeOutcome {
    /// The held funds go back to the client; the deposit can be disputed again.
    Resolve,
    /// The held funds are removed and the account is locked; for good.
    Chargeback,
}

/// What the store keeps for one deposit.
#[derive(Debug, Clone, Copy)]
pub struct DisputableTransactionData {
    pub client: ClientId,
    pub amount: Amount,
    pub state: DisputeState,
}

/// Every recorded amount is in range.
pub open spec fn records_valid(m: Map<TransactionId, DisputableTransactionData>) -> bool {
    forall|t: TransactionId| #[trigger] m.contains_key(t) ==> m[t].amount.wf()
}

/// Records a deposit under its identifier, which must be new.
pub open spec fn add_transaction_spec(
    m: Map<TransactionId, DisputableTransactionData>,
    transaction: DisputableTransaction,
) -> Result<Map<TransactionId, DisputableTransactionData>, LedgerError> {
    match transaction {
        DisputableTransaction::Deposit(record) => if m.contains_key(record.transaction) {
            Err(LedgerError::DuplicateTransaction)
        } else {
            Ok(
                m.insert(
                    record.transaction,
                    DisputableTransactionData {
                        client: record.client,
                        amount: record.amount,
                        state: DisputeState::NotDisputed,
                    },
                ),
            )
        },
    }
}

/// The deposit recorded under `t`, as a disputable transaction.
pub open spec fn recorded_deposit(
    m: Map<TransactionId, DisputableTransactionData>,
    t: TransactionId,
) -> DisputableTransaction {
    DisputableTransaction::Deposit(
        MonetaryTransactionRecord { client: m[t].client, transaction: t, amount: m[t].amount },
    )
}

/// The record under `t` with its state set to `state`.
pub open spec fn with_state(
    m: Map<TransactionId, DisputableTransactionData>,
    t: TransactionId,
    state: DisputeState,
) -> Map<TransactionId, DisputableTransactionData> {
    m.insert(t, DisputableTransactionData { client: m[t].client, amount: m[t].amount, state })
}

/// Opens a dispute on a deposit of the requesting client that is not under
/// dispute; gives the new records and the deposit.
pub open spec fn dispute_spec(
    m: Map<TransactionId, DisputableTransactionData>,
    request: DisputedTransactionRecord,
) -> Result<(Map<TransactionId, DisputableTransactionData>, DisputableTransaction), LedgerError> {
    let t = request.transaction;
    if !m.contains_key(t) {
        Err(LedgerError::UnknownTransaction)
    } else if m[t].client != request.client {
        Err(LedgerError::ClientMismatch)
    } else if m[t].state != DisputeState::NotDisputed {
        Err(LedgerError::NotDisputable)
    } else {
        Ok((with_state(m, t, DisputeState::Disputed), recorded_deposit(m, t)))
    }
}

/// Closes the dispute on a deposit of the requesting client; gives the new
/// records and the deposit.
pub open spec fn undispute_spec(
    m: Map<TransactionId, DisputableTransactionData>,
    request: DisputedTransactionRecord,
    outcome: UndisputeOutcome,
) -> Result<(Map<TransactionId, DisputableTransactionData>, DisputableTransaction), LedgerError> {
    let t = request.transaction;
    if !m.contains_key(t) {
        Err(LedgerError::UnknownTransaction)
    } else if m[t].client != request.client {
        Err(LedgerError::ClientMismatch)
    } else if m[t].state != DisputeState::Disputed {
        Err(LedgerError::NotDisputed)
    } else {
        let state = match outcome {
            UndisputeOutcome::Resolve => DisputeState::NotDisputed,
            UndisputeOutcome::Chargeback => DisputeState::ChargebackOccurred,
        };
        Ok((with_state(m, t, state), recorded_deposit(m, t)))
    }
}

/// How a dispute operation ends: as its spec function says, with the
/// records unchanged on an error.
pub open spec fn dispute_outcome(
    expected: Result<(Map<TransactionId, DisputableTransactionData>, DisputableTransaction), LedgerError>,
    before: Map<TransactionId, DisputableTransactionData>,
    after: Map<TransactionId, DisputableTransactionData>,
    r: Result<DisputableTransaction, LedgerError>,
) -> bool {
    match expected {
        Ok((m, d)) => r == Ok::<DisputableTransaction, LedgerError>(d) && after == m,
        Err(e) => r == Err::<DisputableTransaction, LedgerError>(e) && after == before,
    }
}

/// Stores deposits so that they can be disputed later.
pub trait TransactionStore {
    /// The records, by transaction identifier.
    spec fn records(&self) -> Map<TransactionId, DisputableTransactionData>;

    /// Adds a deposit; no transaction with the same identifier may have been
    /// added before.
    fn add_transaction(&mut self, transaction: DisputableTransaction) -> (r: Result<(), LedgerError>)
        requires
            records_valid(old(self).records()),
            transaction matches DisputableTransaction::Deposit(d) && d.amount.wf(),
        ensures
            records_valid(final(self).records()),
            match add_transaction_spec(old(self).records(), transaction) {
                Ok(m) => r == Ok::<(), LedgerError>(()) && final(self).records() == m,
                Err(e) => r == Err::<(), LedgerError>(e) && final(self).records() == old(self).records(),
            },
    ;

    /// Disputes a deposit; it must have been added, belong to the client, and
    /// be neither under dispute nor charged back.
    fn dispute_transaction(&mut self, transaction: &DisputedTransactionRecord) -> (r: Result<
        DisputableTransaction,
        LedgerError,
    >)
        requires
            records_valid(old(self).records()),
        ensures
            records_valid(final(self).records()),
            dispute_outcome(
                dispute_spec(old(self).records(), *transaction),
                old(self).records(),
                final(self).records(),
                r,
            ),
    ;

    /// Resolves or charges back a deposit; it must belong to the client and be
    /// under dispute.
    fn undispute_transaction(
        &mut self,
        transaction: &DisputedTransactionRecord,
        outcome: UndisputeOutcome,
    ) -> (r: Result<DisputableTransaction, LedgerError>)
        requires
            records_valid(old(self).records()),
        ensures
            records_valid(final(self).records()),
            dispute_outcome(
                undispute_spec(old(self).records(), *transaction, outcome),
                old(self).records(),
                final(self).records(),
                r,
            ),
    ;
}

/// A transaction store held in memory, in a `HashMap`.
pub struct HashMapTransactionStore {
    data_store: HashMap<TransactionId, DisputableTransactionData>,
}

impl HashMapTransactionStore {
    /// An empty store.
    pub fn new() -> (r: HashMapTransactionStore)
        ensures
            r.records() == Map::<TransactionId, DisputableTransactionData>::empty(),
    {
        HashMapTransactionStore { data_store: HashMap::new() }
    }

    /// The record under `t`, if there is one.
    fn find(&self, t: TransactionId) -> (r: Option<DisputableTransactionData>)
        ensures
            r matches Some(d) <==> self.records().contains_key(t),
            r matches Some(d) ==> d == self.records()[t],
    {
        match self.data_store.get(&t) {
            Some(d) => Some(*d),
            None => None,
        }
    }
}

impl TransactionStore for HashMapTransactionStore {
    closed spec fn records(&self) -> Map<TransactionId, DisputableTransactionData> {
        self.data_store@
    }

    fn add_transaction(&mut self, transaction: DisputableTransaction) -> (r: Result<(), LedgerError>) {
        match transaction {
            DisputableTransaction::Deposit(record) => {
                if self.data_store.contains_key(&record.transaction) {
                    return Err(LedgerError::DuplicateTransaction);
                }
                self.data_store.insert(
                    record.transaction,
                    DisputableTransactionData {
                        client: record.client,
                        amount: record.amount,
                        state: DisputeState::NotDisputed,
                    },
                );
                Ok(())
            },
        }
    }

    fn dispute_transaction(&mut self, transaction: &DisputedTransactionRecord) -> (r: Result<
        DisputableTransaction,
        LedgerError,
    >) {
        match self.find(transaction.transaction) {
            Some(data) => {
                if data.client != transaction.client {
                    return Err(LedgerError::ClientMismatch);
                }
                if data.state != DisputeState::NotDisputed {
                    return Err(LedgerError::NotDisputable);
                }
                self.data_store.insert(
                    transaction.transaction,
                    DisputableTransactionData {
                        client: data.client,
                        amount: data.amount,
                        state: DisputeState::Disputed,
                    },
                );
                Ok(
                    DisputableTransaction::Deposit(
                        MonetaryTransactionRecord {
                            client: data.client,
                            transaction: transaction.transaction,
                            amount: data.amount,
                        },
                    ),
                )
            },
            None => Err(LedgerError::UnknownTransaction),
        }
    }

    fn undispute_transaction(
        &mut self,
        transaction: &DisputedTransactionRecord,
        outcome: UndisputeOutcome,
    ) -> (r: Result<DisputableTransaction, LedgerError>) {
        match self.find(transaction.transaction) {
            Some(data) => {
                if data.client != transaction.client {
                    return Err(LedgerError::ClientMismatch);
                }
                if data.state != DisputeState::Disputed {
                    return Err(LedgerError::NotDisputed);
                }
                let state = match outcome {
                    UndisputeOutcome::Resolve => DisputeState::NotDisputed,
                    UndisputeOutcome::Chargeback => DisputeState::ChargebackOccurred,
                };
                self.data_store.insert(
                    transaction.transaction,
                    DisputableTransactionData { client: data.client, amount: data.amount, state },
                );
                Ok(
                    DisputableTransaction::Deposit(
                        MonetaryTransactionRecord {
                            client: data.client,
                            transaction: transaction.transaction,
                            amount: data.amount,
                        },
                    ),
                )
            },
            None => Err(LedgerError::UnknownTransaction),
        }
    }
}

} // verus!
