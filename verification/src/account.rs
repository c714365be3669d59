use vstd::prelude::*;
use vstd::string::StringExecFns;

use crate::clock;
use crate::ids;

verus! {

/// The five account classes of double-entry bookkeeping. The class fixes
/// which direction is the account's "normal" (increasing) side: Asset and
/// Expense accounts normally increase on Debit, the rest on Credit.
#[derive(Clone, Copy, Debug, PartialEq, Eq, Structural)]
pub enum AccountType {
    Asset,
    Liability,
    Equity,
    Revenue,
    Expense,
}

/// One account of the ledger. Identity, class and currency are fixed at
/// creation; only the metadata is mutable in principle, and this core never
/// mutates it. Accounts are never deleted.
#[derive(Debug)]
pub struct Account {
    pub id: u128,
    pub account_type: AccountType,
    pub currency: String,
    pub created_at: i64,
    pub metadata: String,
}

impl Account {
    /// A fresh account with a random id and the current time as its
    /// creation instant; class and currency are taken from the arguments,
    /// the metadata starts empty.
    pub fn new(account_type: AccountType, currency: &str) -> (r: Account)
        ensures
            r.account_type == account_type,
            r.currency@ == currency@,
            r.metadata@ == "{}"@,
    {
        Account {
            id: ids::fresh_id(),
            account_type,
            currency: String::from_str(currency),
            created_at: clock::now_micros(),
            metadata: String::from_str("{}"),
        }
    }

    /// Whether this account's class normally increases on Debit.
    pub fn increases_on_debit(&self) -> (r: bool)
        ensures
            r == (self.account_type is Asset || self.account_type is Expense),
    {
        match self.account_type {
            AccountType::Asset => true,
            AccountType::Expense => true,
            _ => false,
        }
    }
}

impl Clone for Account {
    /// An exact copy.
    fn clone(&self) -> (r: Self)
        ensures
            r == *self,
    {
        Account {
            id: self.id,
            account_type: self.account_type,
            currency: self.currency.clone(),
            created_at: self.created_at,
            metadata: self.metadata.clone(),
        }
    }
}

} // verus!
