pub mod account;
pub mod clock;
pub mod entry;
pub mod generator;
pub mod ids;
pub mod ledger_store;
pub mod transaction;

use vstd::prelude::*;

use crate::account::{Account, AccountType};
use crate::ledger_store::{
    account_found, balance_in, key_found, lemma_balance_bounds, lemma_balance_push,
    InMemoryLedgerStore, LedgerError,
};
use crate::transaction::{Transaction, TransactionError, TransactionType};

verus! {

/// The ledger orchestrator: it composes the validator, the entry generator
/// and the storage boundary into the public operations. Each mutating
/// operation is a single logical unit — validate, pre-check funds for a
/// transfer, generate entries, then one atomic commit — and no operation is
/// retried automatically; `IdempotencyViolation` and `InsufficientBalance`
/// are terminal outcomes for a call.
pub struct LedgerService {
    pub store: InMemoryLedgerStore,
}

impl LedgerService {
    /// A service over the given storage backend.
    pub fn new(store: InMemoryLedgerStore) -> (r: Self)
        ensures
            r.store == store,
    {
        LedgerService { store }
    }

    /// Open an account of the given class and currency. The id is freshly
    /// generated; the operation fails only if that id collides with an
    /// existing row, and then changes nothing.
    pub fn create_account(&mut self, account_type: AccountType, currency: &str) -> (r: Result<
        Account,
        LedgerError,
    >)
        requires
            old(self).store.wf(),
        ensures
            final(self).store.wf(),
            final(self).store.transactions@ == old(self).store.transactions@,
            final(self).store.entries@ == old(self).store.entries@,
            match r {
                Ok(a) => a.account_type == account_type && a.currency@ == currency@
                    && !account_found(old(self).store.accounts@, a.id) && final(self).store.accounts@
                    == old(self).store.accounts@.push(a),
                Err(e) => e == LedgerError::DatabaseError && final(self).store.accounts@ == old(
                    self,
                ).store.accounts@,
            },
    {
        let account = Account::new(account_type, currency);
        match self.store.create_account(&account) {
            Ok(()) => Ok(account),
            Err(e) => Err(e),
        }
    }

    /// Credit an account: validate, read the destination balance, generate
    /// the single Credit entry, and commit atomically. The error cascade is
    /// exact: a non-positive amount is rejected before any storage access;
    /// a balance that would no longer fit the fixed-point range is a
    /// storage constraint violation; a used idempotency key is an
    /// `IdempotencyViolation`; a missing destination is `AccountNotFound`.
    /// A `DatabaseError` on an otherwise acceptable request means a fresh
    /// row identifier collided; nothing was written.
    pub fn credit_account(
        &mut self,
        account_id: u128,
        amount: i64,
        reason_code: &str,
        idempotency_key: &str,
    ) -> (r: Result<Transaction, LedgerError>)
        requires
            old(self).store.wf(),
        ensures
            final(self).store.wf(),
            final(self).store.accounts@ == old(self).store.accounts@,
            ({
                let l = old(self).store;
                let bd = balance_in(l.entries@, account_id);
                match r {
                    Ok(t) => {
                        &&& amount > 0
                        &&& bd + amount <= i64::MAX
                        &&& !key_found(l.transactions@, idempotency_key@)
                        &&& account_found(l.accounts@, account_id)
                        &&& t.transaction_type is Credit
                        &&& t.amount == amount
                        &&& t.source_account_id is None
                        &&& t.destination_account_id == Some(account_id)
                        &&& t.reason_code@ == reason_code@
                        &&& t.idempotency_key@ == idempotency_key@
                        &&& final(self).store.transactions@ == l.transactions@.push(t)
                        &&& final(self).store.entries@.len() == l.entries@.len() + 1
                        &&& final(self).store.entries@.drop_last() == l.entries@
                        &&& ({
                            let e = final(self).store.entries@.last();
                            e.transaction_id == t.id && e.account_id == account_id && e.amount
                                == amount && e.entry_type is Credit && e.balance_after == bd
                                + amount
                        })
                        &&& balance_in(final(self).store.entries@, account_id) == bd + amount
                    },
                    Err(e) => {
                        &&& final(self).store.transactions@ == l.transactions@
                        &&& final(self).store.entries@ == l.entries@
                        &&& ((e == LedgerError::TransactionError(TransactionError::InvalidAmount))
                            <==> amount <= 0)
                        &&& ((e == LedgerError::IdempotencyViolation) <==> (amount > 0 && bd
                            + amount <= i64::MAX && key_found(l.transactions@, idempotency_key@)))
                        &&& ((e == LedgerError::AccountNotFound) <==> (amount > 0 && bd + amount
                            <= i64::MAX && !key_found(l.transactions@, idempotency_key@)
                            && !account_found(l.accounts@, account_id)))
                        &&& e != LedgerError::InsufficientBalance
                        &&& ((e == LedgerError::DatabaseError) ==> amount > 0)
                        &&& ((amount > 0 && bd + amount > i64::MAX) ==> e
                            == LedgerError::DatabaseError)
                    },
                }
            }),
    {
        let transaction = Transaction::new(
            TransactionType::Credit,
            amount,
            None,
            Some(account_id),
            reason_code,
            idempotency_key,
        );
        if let Err(verr) = transaction.validate() {
            proof {
                assert(verr == TransactionError::InvalidAmount);
            }
            return Err(LedgerError::TransactionError(verr));
        }
        let destination_balance = match self.store.get_account_balance(account_id) {
            Ok(b) => b,
            Err(e) => { return Err(e); },
        };
        proof {
            lemma_balance_bounds(self.store.entries@, account_id);
        }
        if destination_balance > i64::MAX - amount {
            return Err(LedgerError::DatabaseError);
        }
        let entries = generator::credit_entries(&transaction, destination_balance);
        let res = self.store.record_transaction(&transaction, &entries);
        match res {
            Ok(()) => {
                proof {
                    let l = old(self).store;
                    assert(crate::ledger_store::batch_entry_error(l.accounts@, l.entries@, entries@)
                        is None);
                    assert(entries@.skip(1).len() == 0);
                    assert(account_found(l.accounts@, account_id));
                    assert(l.entries@ + entries@ =~= l.entries@.push(entries@[0]));
                    lemma_balance_push(l.entries@, entries@[0], account_id);
                    assert(final(self).store.entries@.drop_last() =~= l.entries@);
                }
                Ok(transaction)
            },
            Err(e) => {
                proof {
                    let l = old(self).store;
                    assert(entries@.skip(1).len() == 0);
                    if !key_found(l.transactions@, idempotency_key@) {
                        if account_found(l.accounts@, account_id) {
                            let e0 = entries@[0];
                            assert(crate::entry::signed_amount(e0) == amount as int);
                            assert(balance_in(l.entries@, account_id) + crate::entry::signed_amount(
                                e0,
                            ) <= i64::MAX);
                            assert(e0.balance_after as int == balance_in(l.entries@, account_id)
                                + crate::entry::signed_amount(e0));
                            assert(crate::ledger_store::batch_entry_error(
                                l.accounts@,
                                l.entries@.push(e0),
                                entries@.skip(1),
                            ) is None);
                            assert(crate::ledger_store::batch_entry_error(
                                l.accounts@,
                                l.entries@,
                                entries@,
                            ) is None);
                        } else {
                            assert(crate::ledger_store::batch_entry_error(
                                l.accounts@,
                                l.entries@,
                                entries@,
                            ) == Some(LedgerError::AccountNotFound));
                        }
                    }
                }
                Err(e)
            },
        }
    }

    /// Transfer between two accounts: validate, pre-check the source's
    /// funds, generate the balanced Debit/Credit pair, and commit
    /// atomically — the commit re-checks both the idempotency key and the
    /// funds rule inside the same serialization boundary, so the pre-check
    /// can never be the only line of defence. The error cascade is exact:
    /// a non-positive amount, then a source equal to the destination, are
    /// structural rejections before any storage access; a source balance
    /// below the amount is `InsufficientBalance`; an overfull destination
    /// is a storage constraint violation; a used key is an
    /// `IdempotencyViolation`; a missing account is `AccountNotFound`. A
    /// `DatabaseError` on an otherwise acceptable request means a fresh row
    /// identifier collided; nothing was written.
    pub fn transfer(
        &mut self,
        from_account_id: u128,
        to_account_id: u128,
        amount: i64,
        reason_code: &str,
        idempotency_key: &str,
    ) -> (r: Result<Transaction, LedgerError>)
        requires
            old(self).store.wf(),
        ensures
            final(self).store.wf(),
            final(self).store.accounts@ == old(self).store.accounts@,
            ({
                let l = old(self).store;
                let bs = balance_in(l.entries@, from_account_id);
                let bd = balance_in(l.entries@, to_account_id);
                match r {
                    Ok(t) => {
                        &&& amount > 0
                        &&& from_account_id != to_account_id
                        &&& bs >= amount
                        &&& bd + amount <= i64::MAX
                        &&& !key_found(l.transactions@, idempotency_key@)
                        &&& account_found(l.accounts@, from_account_id)
                        &&& account_found(l.accounts@, to_account_id)
                        &&& t.transaction_type is Transfer
                        &&& t.amount == amount
                        &&& t.source_account_id == Some(from_account_id)
                        &&& t.destination_account_id == Some(to_account_id)
                        &&& t.reason_code@ == reason_code@
                        &&& t.idempotency_key@ == idempotency_key@
                        &&& final(self).store.transactions@ == l.transactions@.push(t)
                        &&& final(self).store.entries@.len() == l.entries@.len() + 2
                        &&& final(self).store.entries@.take(l.entries@.len() as int) == l.entries@
                        &&& ({
                            let d = final(self).store.entries@[l.entries@.len() as int];
                            d.transaction_id == t.id && d.account_id == from_account_id && d.amount
                                == amount && d.entry_type is Debit && d.balance_after == bs - amount
                        })
                        &&& ({
                            let c = final(self).store.entries@.last();
                            c.transaction_id == t.id && c.account_id == to_account_id && c.amount
                                == amount && c.entry_type is Credit && c.balance_after == bd
                                + amount
                        })
                        &&& balance_in(final(self).store.entries@, from_account_id) == bs - amount
                        &&& balance_in(final(self).store.entries@, to_account_id) == bd + amount
                    },
                    Err(e) => {
                        &&& final(self).store.transactions@ == l.transactions@
                        &&& final(self).store.entries@ == l.entries@
                        &&& ((e == LedgerError::TransactionError(TransactionError::InvalidAmount))
                            <==> amount <= 0)
                        &&& ((e == LedgerError::TransactionError(
                            TransactionError::SameAccountTransfer,
                        )) <==> (amount > 0 && from_account_id == to_account_id))
                        &&& ((e == LedgerError::InsufficientBalance) <==> (amount > 0
                            && from_account_id != to_account_id && bs < amount))
                        &&& ((e == LedgerError::IdempotencyViolation) <==> (amount > 0
                            && from_account_id != to_account_id && bs >= amount && bd + amount
                            <= i64::MAX && key_found(l.transactions@, idempotency_key@)))
                        &&& ((e == LedgerError::AccountNotFound) <==> (amount > 0
                            && from_account_id != to_account_id && bs >= amount && bd + amount
                            <= i64::MAX && !key_found(l.transactions@, idempotency_key@) && !(
                        account_found(l.accounts@, from_account_id) && account_found(
                            l.accounts@,
                            to_account_id,
                        ))))
                        &&& ((amount > 0 && from_account_id != to_account_id && bs >= amount && bd
                            + amount > i64::MAX) ==> e == LedgerError::DatabaseError)
                        &&& ((e == LedgerError::DatabaseError) ==> (amount > 0 && from_account_id
                            != to_account_id && bs >= amount))
                    },
                }
            }),
    {
        let transaction = Transaction::new(
            TransactionType::Transfer,
            amount,
            Some(from_account_id),
            Some(to_account_id),
            reason_code,
            idempotency_key,
        );
        if let Err(verr) = transaction.validate() {
            proof {
                assert(verr == TransactionError::InvalidAmount || verr
                    == TransactionError::SameAccountTransfer);
            }
            return Err(LedgerError::TransactionError(verr));
        }
        let source_balance = match self.store.get_account_balance(from_account_id) {
            Ok(b) => b,
            Err(e) => { return Err(e); },
        };
        if source_balance < amount {
            return Err(LedgerError::InsufficientBalance);
        }
        let destination_balance = match self.store.get_account_balance(to_account_id) {
            Ok(b) => b,
            Err(e) => { return Err(e); },
        };
        proof {
            lemma_balance_bounds(self.store.entries@, from_account_id);
            lemma_balance_bounds(self.store.entries@, to_account_id);
        }
        if destination_balance > i64::MAX - amount {
            return Err(LedgerError::DatabaseError);
        }
        let entries = generator::transfer_entries(&transaction, source_balance, destination_balance);
        let res = self.store.record_transaction(&transaction, &entries);
        proof {
            let l = old(self).store;
            let d = entries@[0];
            let c = entries@[1];
            assert(entries@.skip(1) =~= seq![c]);
            assert(seq![c].skip(1).len() == 0);
            lemma_balance_push(l.entries@, d, to_account_id);
            lemma_balance_push(l.entries@, d, from_account_id);
        }
        match res {
            Ok(()) => {
                proof {
                    let l = old(self).store;
                    let d = entries@[0];
                    let c = entries@[1];
                    assert(crate::ledger_store::batch_entry_error(l.accounts@, l.entries@, entries@)
                        is None);
                    assert(account_found(l.accounts@, from_account_id));
                    assert(crate::ledger_store::batch_entry_error(
                        l.accounts@,
                        l.entries@.push(d),
                        entries@.skip(1),
                    ) is None);
                    assert(account_found(l.accounts@, to_account_id));
                    let post = l.entries@ + entries@;
                    assert(post =~= l.entries@.push(d).push(c));
                    lemma_balance_push(l.entries@.push(d), c, from_account_id);
                    lemma_balance_push(l.entries@.push(d), c, to_account_id);
                    assert(post.take(l.entries@.len() as int) =~= l.entries@);
                }
                Ok(transaction)
            },
            Err(e) => {
                proof {
                    let l = old(self).store;
                    let d = entries@[0];
                    let c = entries@[1];
                    if !key_found(l.transactions@, idempotency_key@) {
                        if account_found(l.accounts@, from_account_id) {
                            if account_found(l.accounts@, to_account_id) {
                                assert(entries@.skip(1)[0] == c);
                                assert(crate::entry::signed_amount(c) == amount as int);
                                assert(balance_in(l.entries@.push(d), to_account_id)
                                    == balance_in(l.entries@, to_account_id));
                                assert(c.balance_after as int == balance_in(
                                    l.entries@.push(d),
                                    to_account_id,
                                ) + crate::entry::signed_amount(c));
                                assert(crate::ledger_store::batch_entry_error(
                                    l.accounts@,
                                    l.entries@.push(d).push(c),
                                    entries@.skip(1).skip(1),
                                ) is None);
                                assert(crate::ledger_store::batch_entry_error(
                                    l.accounts@,
                                    l.entries@.push(d),
                                    entries@.skip(1),
                                ) is None);
                                assert(crate::ledger_store::batch_entry_error(
                                    l.accounts@,
                                    l.entries@,
                                    entries@,
                                ) is None);
                            } else {
                                assert(crate::ledger_store::batch_entry_error(
                                    l.accounts@,
                                    l.entries@.push(d),
                                    entries@.skip(1),
                                ) == Some(LedgerError::AccountNotFound));
                                assert(crate::ledger_store::batch_entry_error(
                                    l.accounts@,
                                    l.entries@,
                                    entries@,
                                ) == Some(LedgerError::AccountNotFound));
                            }
                        } else {
                            assert(crate::ledger_store::batch_entry_error(
                                l.accounts@,
                                l.entries@,
                                entries@,
                            ) == Some(LedgerError::AccountNotFound));
                        }
                    }
                }
                Err(e)
            },
        }
    }

    /// The derived balance of an account: the signed sum of its committed
    /// entries, zero for an account with no entries.
    pub fn get_account_balance(&self, account_id: u128) -> (r: Result<i64, LedgerError>)
        requires
            self.store.wf(),
        ensures
            match r {
                Ok(b) => b as int == balance_in(self.store.entries@, account_id),
                Err(_) => false,
            },
    {
        self.store.get_account_balance(account_id)
    }

    /// The transactions that touched an account, newest first by timestamp,
    /// paginated.
    pub fn get_account_transactions(&self, account_id: u128, limit: i64, offset: i64) -> (r: Result<
        Vec<Transaction>,
        LedgerError,
    >)
        requires
            self.store.wf(),
            limit >= 0,
            offset >= 0,
        ensures
            match r {
                Ok(v) => exists|s: Seq<Transaction>|
                    #![auto]
                    {
                        &&& s.to_multiset() == self.store.transactions@.filter(
                            |t: Transaction|
                                crate::ledger_store::tx_touches(
                                    self.store.entries@,
                                    account_id,
                                    t.id,
                                ),
                        ).to_multiset()
                        &&& crate::ledger_store::txs_time_sorted_desc(s)
                        &&& v@ == s.subrange(
                            if offset as int <= s.len() {
                                offset as int
                            } else {
                                s.len() as int
                            },
                            if offset as int + limit as int <= s.len() {
                                offset as int + limit as int
                            } else {
                                s.len() as int
                            },
                        )
                    },
                Err(_) => false,
            },
    {
        self.store.get_account_transactions(account_id, limit, offset)
    }
}

} // verus!
