use vstd::prelude::*;

use crate::clock;
use crate::ids;

verus! {

/// The direction of one movement. By the sign convention of this ledger
/// a Credit increases an account's balance and a Debit decreases it.
#[derive(Clone, Copy, Debug, PartialEq, Eq, Structural)]
pub enum EntryType {
    Debit,
    Credit,
}

/// One signed movement against one account, belonging to exactly one
/// transaction. Entries are append-only: once committed they are never
/// mutated or deleted. Monetary amounts are fixed-point decimals held as
/// integer minor units (for example cents); `amount` is always positive,
/// the direction is carried by `entry_type`.
#[derive(Clone, Copy, Debug)]
pub struct Entry {
    pub id: u128,
    pub transaction_id: u128,
    pub account_id: u128,
    pub amount: i64,
    pub entry_type: EntryType,
    pub timestamp: i64,
    pub balance_after: i64,
}

/// The signed contribution of one entry to its account's balance:
/// the amount for a Credit, its negation for a Debit.
pub open spec fn signed_amount(e: Entry) -> int {
    if e.entry_type is Credit {
        e.amount as int
    } else {
        -(e.amount as int)
    }
}

impl Entry {
    /// A fresh entry with a random id and the current time as its
    /// timestamp; every other field is taken from the arguments.
    pub fn new(
        transaction_id: u128,
        account_id: u128,
        amount: i64,
        entry_type: EntryType,
        balance_after: i64,
    ) -> (r: Entry)
        ensures
            r.transaction_id == transaction_id,
            r.account_id == account_id,
            r.amount == amount,
            r.entry_type == entry_type,
            r.balance_after == balance_after,
    {
        Entry {
            id: ids::fresh_id(),
            transaction_id,
            account_id,
            amount,
            entry_type,
            timestamp: clock::now_micros(),
            balance_after,
        }
    }
}

} // verus!
