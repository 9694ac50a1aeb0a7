//! A ledger engine for client accounts: deposits, withdrawals and the
//! dispute lifecycle of deposits, with every balance change verified.

pub mod amount;
pub mod types;
pub mod account_store;
pub mod transaction_store;
pub mod transaction_handler;
pub mod laws;
pub mod csv_parser;
pub mod csv_writer;

use vstd::prelude::*;
use crate::account_store::{account_matches, AccountData, AccountView};
use crate::amount::sum_fits;
use crate::csv_parser::{csv_rows, iter_transactions, transactions_of};
use crate::csv_writer::{csv_text, table_rows, write_accounts};
use crate::transaction_handler::{run_through, snapshot_view, LedgerView, TransactionHandler};
use crate::transaction_store::DisputableTransactionData;
use crate::types::{Account, ClientId, LedgerError, TransactionId};

verus! {

/// The ledger before any transaction.
pub open spec fn empty_ledger() -> LedgerView {
    LedgerView {
        accounts: Map::<ClientId, AccountView>::empty(),
        records: Map::<TransactionId, DisputableTransactionData>::empty(),
    }
}

/// `accounts` shows every account of `v` once, in some order, each with its
/// amounts as `data` stores them.
pub open spec fn snapshot_of(
    accounts: Seq<Account>,
    v: Map<ClientId, AccountView>,
    data: Map<ClientId, AccountData>,
) -> bool {
    &&& forall|i: int|
        0 <= i < accounts.len() ==> v.contains_key(accounts[i].client) && v[accounts[i].client]
            == snapshot_view(#[trigger] accounts[i]) && account_matches(accounts[i], data[accounts[i].client])
    &&& forall|c: ClientId|
        v.contains_key(c) ==> exists|i: int| 0 <= i < accounts.len() && #[trigger] accounts[i].client == c
    &&& forall|i: int, j: int| 0 <= i < j < accounts.len() ==> accounts[i].client != accounts[j].client
}

/// `accounts` is a snapshot of the ledger after a run of every transaction
/// that `input` holds, from an empty ledger.
pub open spec fn run_ends_with(input: Seq<u8>, accounts: Seq<Account>) -> bool {
    exists|
        states: Seq<LedgerView>,
        datas: Seq<Map<ClientId, AccountData>>,
        results: Seq<Result<(), LedgerError>>,
    |
        #[trigger] run_through(states, datas, transactions_of(csv_rows(input)), results) && states[0]
            == empty_ledger() && datas[0] == Map::<ClientId, AccountData>::empty() && snapshot_of(
            accounts,
            states.last().accounts,
            datas.last(),
        )
}

/// Reads transactions from comma-separated text, applies them in order to an
/// empty ledger, and writes the resulting accounts as comma-separated text.
/// Fails exactly where the total of a resulting account is no exact decimal.
pub fn process_transactions(source: &[u8]) -> (r: Option<Vec<u8>>)
    ensures
        exists|accounts: Seq<Account>|
            #[trigger] run_ends_with(source@, accounts) && match r {
                Some(out) => csv_text(table_rows(accounts)) == out@,
                None => exists|i: int|
                    0 <= i < accounts.len() && !sum_fits(#[trigger] accounts[i].available, accounts[i].held),
            },
{
    let transactions = iter_transactions(source);
    let mut handler = TransactionHandler::new();
    proof {
        assert(handler@ == empty_ledger());
    }
    let ghost start = handler@;
    let ghost start_data = handler.account_data();
    let results = handler.handle_transactions(transactions);
    let accounts = handler.accounts();
    let written = write_accounts(&accounts);
    proof {
        let (states, datas) = choose|states: Seq<LedgerView>, datas: Seq<Map<ClientId, AccountData>>|
            #[trigger] run_through(states, datas, transactions@, results@) && states[0] == start
                && datas[0] == start_data && states[transactions.len() as int] == handler@
                && datas[transactions.len() as int] == handler.account_data();
        assert(snapshot_of(accounts@, states.last().accounts, datas.last()));
        assert(run_through(states, datas, transactions_of(csv_rows(source@)), results@));
        assert(run_ends_with(source@, accounts@));
    }
    written
}

} // verus!
