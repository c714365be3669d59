use vstd::prelude::*;

use crate::entry::{Entry, EntryType};
use crate::ledger_store::entries_consistent;
use crate::transaction::{spec_validate, Transaction};

verus! {

/// The entry generator for a credit: one Credit entry at the destination
/// account whose `balance_after` embeds the given balance snapshot plus the
/// amount. The snapshot is only correct if no concurrent entry for the same
/// account is committed before this one; the atomic commit re-checks it.
/// Yields no entry when the transaction names no destination.
pub fn credit_entries(transaction: &Transaction, destination_balance: i64) -> (r: Vec<Entry>)
    requires
        spec_validate(*transaction) is Ok,
        transaction.destination_account_id is Some ==> 0 <= destination_balance
            && destination_balance + transaction.amount <= i64::MAX,
    ensures
        match transaction.destination_account_id {
            Some(d) => r@.len() == 1 && r@[0].transaction_id == transaction.id && r@[0].account_id
                == d && r@[0].amount == transaction.amount && r@[0].entry_type is Credit
                && r@[0].balance_after == destination_balance + transaction.amount,
            None => r@.len() == 0,
        },
        transaction.transaction_type is Credit ==> entries_consistent(*transaction, r@),
{
    let mut entries: Vec<Entry> = Vec::new();
    if let Some(dest_account_id) = transaction.destination_account_id {
        let new_balance = destination_balance + transaction.amount;
        entries.push(
            Entry::new(
                transaction.id,
                dest_account_id,
                transaction.amount,
                EntryType::Credit,
                new_balance,
            ),
        );
    }
    entries
}

/// The entry generator for a transfer: a Debit entry at the source, then a
/// Credit entry at the destination, each embedding its account's balance
/// snapshot moved by the amount. The debit side may drive its
/// `balance_after` negative here; the atomic commit rejects such a batch.
/// Sides whose account is absent from the transaction are skipped.
pub fn transfer_entries(
    transaction: &Transaction,
    source_balance: i64,
    destination_balance: i64,
) -> (r: Vec<Entry>)
    requires
        spec_validate(*transaction) is Ok,
        transaction.source_account_id is Some ==> 0 <= source_balance,
        transaction.destination_account_id is Some ==> 0 <= destination_balance
            && destination_balance + transaction.amount <= i64::MAX,
    ensures
        match (transaction.source_account_id, transaction.destination_account_id) {
            (Some(s), Some(d)) => r@.len() == 2 && r@[0].transaction_id == transaction.id
                && r@[0].account_id == s && r@[0].amount == transaction.amount
                && r@[0].entry_type is Debit && r@[0].balance_after == source_balance
                - transaction.amount && r@[1].transaction_id == transaction.id && r@[1].account_id
                == d && r@[1].amount == transaction.amount && r@[1].entry_type is Credit
                && r@[1].balance_after == destination_balance + transaction.amount,
            (Some(s), None) => r@.len() == 1 && r@[0].transaction_id == transaction.id
                && r@[0].account_id == s && r@[0].amount == transaction.amount
                && r@[0].entry_type is Debit && r@[0].balance_after == source_balance
                - transaction.amount,
            (None, Some(d)) => r@.len() == 1 && r@[0].transaction_id == transaction.id
                && r@[0].account_id == d && r@[0].amount == transaction.amount
                && r@[0].entry_type is Credit && r@[0].balance_after == destination_balance
                + transaction.amount,
            (None, None) => r@.len() == 0,
        },
        transaction.transaction_type is Transfer ==> entries_consistent(*transaction, r@),
{
    let mut entries: Vec<Entry> = Vec::new();
    if let Some(source_account_id) = transaction.source_account_id {
        let new_source_balance = source_balance - transaction.amount;
        entries.push(
            Entry::new(
                transaction.id,
                source_account_id,
                transaction.amount,
                EntryType::Debit,
                new_source_balance,
            ),
        );
    }
    if let Some(dest_account_id) = transaction.destination_account_id {
        let new_dest_balance = destination_balance + transaction.amount;
        entries.push(
            Entry::new(
                transaction.id,
                dest_account_id,
                transaction.amount,
                EntryType::Credit,
                new_dest_balance,
            ),
        );
    }
    entries
}

} // verus!
