use vstd::prelude::*;
use vstd::string::StringExecFns;

use crate::clock;
use crate::ids;

verus! {

/// The kind of movement a transaction requests.
#[derive(Clone, Copy, Debug, PartialEq, Eq, Structural)]
pub enum TransactionType {
    Credit,
    Debit,
    Transfer,
    Reversal,
    Adjustment,
}

/// Why a proposed transaction is structurally unacceptable. Validation
/// inspects only the transaction's own fields, never storage.
#[derive(Clone, Copy, Debug, PartialEq, Eq, Structural)]
pub enum TransactionError {
    /// The amount is not strictly positive.
    InvalidAmount,
    /// A credit names no destination account.
    MissingDestinationAccount,
    /// A debit names no source account.
    MissingSourceAccount,
    /// A transfer is missing its source or its destination account.
    MissingAccountForTransfer,
    /// A transfer names the same account as source and destination.
    SameAccountTransfer,
    /// A request with this idempotency key was already processed.
    DuplicateTransaction,
}

/// A proposed movement: immutable once persisted, identified for
/// deduplication by its caller-supplied `idempotency_key`. Amounts are
/// fixed-point decimals held as integer minor units and must be positive.
#[derive(Debug)]
pub struct Transaction {
    pub id: u128,
    pub transaction_type: TransactionType,
    pub amount: i64,
    pub source_account_id: Option<u128>,
    pub destination_account_id: Option<u128>,
    pub timestamp: i64,
    pub reason_code: String,
    pub metadata: String,
    pub idempotency_key: String,
}

/// The outcome of structural validation, checked in this order: the amount
/// must be strictly positive; a credit needs a destination; a debit needs a
/// source; a transfer needs both, and they must differ. Reversals and
/// adjustments carry no further structural constraint.
pub open spec fn spec_validate(t: Transaction) -> Result<(), TransactionError> {
    if t.amount <= 0 {
        Err(TransactionError::InvalidAmount)
    } else {
        match t.transaction_type {
            TransactionType::Credit => {
                if t.destination_account_id is None {
                    Err(TransactionError::MissingDestinationAccount)
                } else {
                    Ok(())
                }
            },
            TransactionType::Debit => {
                if t.source_account_id is None {
                    Err(TransactionError::MissingSourceAccount)
                } else {
                    Ok(())
                }
            },
            TransactionType::Transfer => {
                if t.source_account_id is None || t.destination_account_id is None {
                    Err(TransactionError::MissingAccountForTransfer)
                } else if t.source_account_id == t.destination_account_id {
                    Err(TransactionError::SameAccountTransfer)
                } else {
                    Ok(())
                }
            },
            _ => Ok(()),
        }
    }
}

impl Transaction {
    /// A fresh transaction with a random id, the current time as its
    /// timestamp and empty metadata; every other field is taken from the
    /// arguments.
    pub fn new(
        transaction_type: TransactionType,
        amount: i64,
        source_account_id: Option<u128>,
        destination_account_id: Option<u128>,
        reason_code: &str,
        idempotency_key: &str,
    ) -> (r: Transaction)
        ensures
            r.transaction_type == transaction_type,
            r.amount == amount,
            r.source_account_id == source_account_id,
            r.destination_account_id == destination_account_id,
            r.reason_code@ == reason_code@,
            r.metadata@ == "{}"@,
            r.idempotency_key@ == idempotency_key@,
    {
        Transaction {
            id: ids::fresh_id(),
            transaction_type,
            amount,
            source_account_id,
            destination_account_id,
            timestamp: clock::now_micros(),
            reason_code: String::from_str(reason_code),
            metadata: String::from_str("{}"),
            idempotency_key: String::from_str(idempotency_key),
        }
    }

    /// Structural validation: pure, side-effect-free, and exactly the
    /// cascade that `spec_validate` states.
    pub fn validate(&self) -> (r: Result<(), TransactionError>)
        ensures
            r == spec_validate(*self),
    {
        if self.amount <= 0 {
            return Err(TransactionError::InvalidAmount);
        }
        match self.transaction_type {
            TransactionType::Credit => {
                if self.destination_account_id.is_none() {
                    return Err(TransactionError::MissingDestinationAccount);
                }
            },
            TransactionType::Debit => {
                if self.source_account_id.is_none() {
                    return Err(TransactionError::MissingSourceAccount);
                }
            },
            TransactionType::Transfer => {
                if self.source_account_id.is_none() || self.destination_account_id.is_none() {
                    return Err(TransactionError::MissingAccountForTransfer);
                }
                if self.source_account_id == self.destination_account_id {
                    return Err(TransactionError::SameAccountTransfer);
                }
            },
            _ => {},
        }
        Ok(())
    }
}

impl Clone for Transaction {
    /// An exact copy.
    fn clone(&self) -> (r: Self)
        ensures
            r == *self,
    {
        Transaction {
            id: self.id,
            transaction_type: self.transaction_type,
            amount: self.amount,
            source_account_id: self.source_account_id,
            destination_account_id: self.destination_account_id,
            timestamp: self.timestamp,
            reason_code: self.reason_code.clone(),
            metadata: self.metadata.clone(),
            idempotency_key: self.idempotency_key.clone(),
        }
    }
}

} // verus!
