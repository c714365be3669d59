use ledger::account::AccountType;
use ledger::entry::EntryType;
use ledger::ledger_store::{InMemoryLedgerStore, LedgerError};
use ledger::transaction::{Transaction, TransactionError, TransactionType};
use ledger::LedgerService;

fn service() -> LedgerService {
    LedgerService::new(InMemoryLedgerStore::new())
}

#[test]
fn worked_example() {
    // Open account A (Asset, USD) and account B (Asset, USD), amounts in cents.
    let mut svc = service();
    let a = svc.create_account(AccountType::Asset, "USD").unwrap();
    let b = svc.create_account(AccountType::Asset, "USD").unwrap();

    // credit(A, 100.00, "deposit", "k1") -> balance(A) = 100.00
    let t1 = svc.credit_account(a.id, 10000, "deposit", "k1").unwrap();
    assert_eq!(svc.get_account_balance(a.id).unwrap(), 10000);
    let t1_entries = svc.store.get_entries_for_transaction(t1.id).unwrap();
    assert_eq!(t1_entries.len(), 1);
    assert!(matches!(t1_entries[0].entry_type, EntryType::Credit));
    assert_eq!(t1_entries[0].balance_after, 10000);
    assert_eq!(t1_entries[0].account_id, a.id);

    // transfer(A, B, 40.00, "payment", "k2")
    let t2 = svc.transfer(a.id, b.id, 4000, "payment", "k2").unwrap();
    let t2_entries = svc.store.get_entries_for_transaction(t2.id).unwrap();
    assert_eq!(t2_entries.len(), 2);
    let debit: Vec<_> = t2_entries
        .iter()
        .filter(|e| matches!(e.entry_type, EntryType::Debit))
        .collect();
    let credit: Vec<_> = t2_entries
        .iter()
        .filter(|e| matches!(e.entry_type, EntryType::Credit))
        .collect();
    assert_eq!(debit.len(), 1);
    assert_eq!(credit.len(), 1);
    assert_eq!(debit[0].account_id, a.id);
    assert_eq!(debit[0].balance_after, 6000);
    assert_eq!(credit[0].account_id, b.id);
    assert_eq!(credit[0].balance_after, 4000);
    assert_eq!(svc.get_account_balance(a.id).unwrap(), 6000);
    assert_eq!(svc.get_account_balance(b.id).unwrap(), 4000);

    // Re-submitting "k2" -> IdempotencyViolation; balances unchanged.
    let again = svc.transfer(a.id, b.id, 4000, "payment", "k2");
    assert!(matches!(again, Err(LedgerError::IdempotencyViolation)));
    assert_eq!(svc.get_account_balance(a.id).unwrap(), 6000);
    assert_eq!(svc.get_account_balance(b.id).unwrap(), 4000);
}

#[test]
fn transfer_entries_sum_to_zero() {
    let mut svc = service();
    let a = svc.create_account(AccountType::Asset, "USD").unwrap();
    let b = svc.create_account(AccountType::Asset, "USD").unwrap();
    svc.credit_account(a.id, 500, "deposit", "k1").unwrap();
    let t = svc.transfer(a.id, b.id, 123, "payment", "k2").unwrap();
    let entries = svc.store.get_entries_for_transaction(t.id).unwrap();
    let signed_sum: i64 = entries
        .iter()
        .map(|e| match e.entry_type {
            EntryType::Credit => e.amount,
            EntryType::Debit => -e.amount,
        })
        .sum();
    assert_eq!(signed_sum, 0);
}

#[test]
fn balance_is_signed_sum_and_matches_last_entry() {
    let mut svc = service();
    let a = svc.create_account(AccountType::Asset, "USD").unwrap();
    let b = svc.create_account(AccountType::Asset, "USD").unwrap();
    svc.credit_account(a.id, 1000, "deposit", "k1").unwrap();
    svc.credit_account(a.id, 250, "deposit", "k2").unwrap();
    svc.transfer(a.id, b.id, 300, "payment", "k3").unwrap();

    // Signed sum over all of A's entries.
    let mut sum: i64 = 0;
    let mut last_after: Option<i64> = None;
    for e in &svc.store.entries {
        if e.account_id == a.id {
            sum += match e.entry_type {
                EntryType::Credit => e.amount,
                EntryType::Debit => -e.amount,
            };
            last_after = Some(e.balance_after);
        }
    }
    assert_eq!(sum, 950);
    assert_eq!(svc.get_account_balance(a.id).unwrap(), 950);
    assert_eq!(last_after, Some(950));
}

#[test]
fn idempotent_credit_persists_once() {
    let mut svc = service();
    let a = svc.create_account(AccountType::Asset, "USD").unwrap();
    svc.credit_account(a.id, 700, "deposit", "dup-key").unwrap();
    let again = svc.credit_account(a.id, 700, "deposit", "dup-key");
    assert!(matches!(again, Err(LedgerError::IdempotencyViolation)));
    assert_eq!(svc.get_account_balance(a.id).unwrap(), 700);
    assert_eq!(svc.store.transactions.len(), 1);
    assert_eq!(svc.store.entries.len(), 1);
    // The prior result is fetched by key, not by retrying the mutation.
    let prior = svc.store.get_transaction_by_key(&"dup-key".to_string()).unwrap();
    assert!(prior.is_some());
    assert_eq!(prior.unwrap().amount, 700);
}

#[test]
fn underfunded_transfer_rejected() {
    let mut svc = service();
    let a = svc.create_account(AccountType::Asset, "USD").unwrap();
    let b = svc.create_account(AccountType::Asset, "USD").unwrap();
    svc.credit_account(a.id, 100, "deposit", "k1").unwrap();
    let r = svc.transfer(a.id, b.id, 101, "payment", "k2");
    assert!(matches!(r, Err(LedgerError::InsufficientBalance)));
    assert_eq!(svc.get_account_balance(a.id).unwrap(), 100);
    assert_eq!(svc.get_account_balance(b.id).unwrap(), 0);
    assert_eq!(svc.store.entries.len(), 1);
}

#[test]
fn structural_rejections() {
    let mut svc = service();
    let a = svc.create_account(AccountType::Asset, "USD").unwrap();
    let b = svc.create_account(AccountType::Asset, "USD").unwrap();
    svc.credit_account(a.id, 100, "deposit", "k1").unwrap();

    let r = svc.credit_account(a.id, 0, "deposit", "k2");
    assert!(matches!(
        r,
        Err(LedgerError::TransactionError(TransactionError::InvalidAmount))
    ));
    let r = svc.credit_account(a.id, -5, "deposit", "k3");
    assert!(matches!(
        r,
        Err(LedgerError::TransactionError(TransactionError::InvalidAmount))
    ));
    let r = svc.transfer(a.id, b.id, 0, "payment", "k4");
    assert!(matches!(
        r,
        Err(LedgerError::TransactionError(TransactionError::InvalidAmount))
    ));
    let r = svc.transfer(a.id, a.id, 10, "payment", "k5");
    assert!(matches!(
        r,
        Err(LedgerError::TransactionError(TransactionError::SameAccountTransfer))
    ));
    // Nothing was persisted by any rejection.
    assert_eq!(svc.store.transactions.len(), 1);
    assert_eq!(svc.store.entries.len(), 1);
    assert_eq!(svc.get_account_balance(a.id).unwrap(), 100);
}

#[test]
fn no_double_spend_sequentially() {
    // An account holding exactly 3 x 100: three transfers of 100 succeed
    // leaving 0; a fourth is rejected with InsufficientBalance, never an
    // overdraft.
    let mut svc = service();
    let a = svc.create_account(AccountType::Asset, "USD").unwrap();
    let b = svc.create_account(AccountType::Asset, "USD").unwrap();
    svc.credit_account(a.id, 300, "deposit", "seed").unwrap();
    assert!(svc.transfer(a.id, b.id, 100, "spend", "t1").is_ok());
    assert!(svc.transfer(a.id, b.id, 100, "spend", "t2").is_ok());
    assert!(svc.transfer(a.id, b.id, 100, "spend", "t3").is_ok());
    let r = svc.transfer(a.id, b.id, 100, "spend", "t4");
    assert!(matches!(r, Err(LedgerError::InsufficientBalance)));
    assert_eq!(svc.get_account_balance(a.id).unwrap(), 0);
    assert_eq!(svc.get_account_balance(b.id).unwrap(), 300);
    assert!(svc.get_account_balance(a.id).unwrap() >= 0);
}

#[test]
fn credit_to_missing_account() {
    let mut svc = service();
    let r = svc.credit_account(42, 100, "deposit", "k1");
    assert!(matches!(r, Err(LedgerError::AccountNotFound)));
    assert_eq!(svc.store.transactions.len(), 0);
    assert_eq!(svc.store.entries.len(), 0);
}

#[test]
fn transfer_with_missing_destination() {
    let mut svc = service();
    let a = svc.create_account(AccountType::Asset, "USD").unwrap();
    svc.credit_account(a.id, 500, "deposit", "k1").unwrap();
    let r = svc.transfer(a.id, 4242, 100, "payment", "k2");
    assert!(matches!(r, Err(LedgerError::AccountNotFound)));
    assert_eq!(svc.get_account_balance(a.id).unwrap(), 500);
}

#[test]
fn transfer_from_missing_account_is_underfunded() {
    // A missing source has a derived balance of zero, so the funds
    // pre-check fires before any account lookup.
    let mut svc = service();
    let b = svc.create_account(AccountType::Asset, "USD").unwrap();
    let r = svc.transfer(987, b.id, 100, "payment", "k1");
    assert!(matches!(r, Err(LedgerError::InsufficientBalance)));
}

#[test]
fn credit_overflowing_fixed_point_range() {
    let mut svc = service();
    let a = svc.create_account(AccountType::Asset, "USD").unwrap();
    svc.credit_account(a.id, i64::MAX, "deposit", "k1").unwrap();
    assert_eq!(svc.get_account_balance(a.id).unwrap(), i64::MAX);
    let r = svc.credit_account(a.id, 1, "deposit", "k2");
    assert!(matches!(r, Err(LedgerError::DatabaseError)));
    assert_eq!(svc.get_account_balance(a.id).unwrap(), i64::MAX);
}

#[test]
fn validate_requires_destination_for_credit() {
    let t = Transaction::new(TransactionType::Credit, 100, None, None, "r", "k");
    assert!(matches!(
        t.validate(),
        Err(TransactionError::MissingDestinationAccount)
    ));
}

#[test]
fn validate_requires_source_for_debit() {
    let t = Transaction::new(TransactionType::Debit, 100, None, Some(1), "r", "k");
    assert!(matches!(t.validate(), Err(TransactionError::MissingSourceAccount)));
}

#[test]
fn validate_requires_both_accounts_for_transfer() {
    let t = Transaction::new(TransactionType::Transfer, 100, Some(1), None, "r", "k");
    assert!(matches!(
        t.validate(),
        Err(TransactionError::MissingAccountForTransfer)
    ));
    let t = Transaction::new(TransactionType::Transfer, 100, None, Some(2), "r", "k");
    assert!(matches!(
        t.validate(),
        Err(TransactionError::MissingAccountForTransfer)
    ));
}

#[test]
fn validate_accepts_reversal_and_adjustment() {
    let t = Transaction::new(TransactionType::Reversal, 100, None, None, "r", "k");
    assert!(t.validate().is_ok());
    let t = Transaction::new(TransactionType::Adjustment, 100, None, None, "r", "k");
    assert!(t.validate().is_ok());
}

#[test]
fn validate_checks_amount_first() {
    let t = Transaction::new(TransactionType::Transfer, -1, None, None, "r", "k");
    assert!(matches!(t.validate(), Err(TransactionError::InvalidAmount)));
}

#[test]
fn history_is_filtered_sorted_and_paginated() {
    let mut svc = service();
    let a = svc.create_account(AccountType::Asset, "USD").unwrap();
    let b = svc.create_account(AccountType::Asset, "USD").unwrap();
    let c = svc.create_account(AccountType::Asset, "USD").unwrap();
    let t1 = svc.credit_account(a.id, 1000, "deposit", "k1").unwrap();
    let t2 = svc.transfer(a.id, b.id, 100, "payment", "k2").unwrap();
    let t3 = svc.credit_account(c.id, 50, "deposit", "k3").unwrap();

    let hist = svc.get_account_transactions(a.id, 10, 0).unwrap();
    assert_eq!(hist.len(), 2);
    let ids: Vec<u128> = hist.iter().map(|t| t.id).collect();
    assert!(ids.contains(&t1.id));
    assert!(ids.contains(&t2.id));
    assert!(!ids.contains(&t3.id));
    // Newest first by timestamp.
    for w in hist.windows(2) {
        assert!(w[0].timestamp >= w[1].timestamp);
    }

    let page = svc.get_account_transactions(a.id, 1, 0).unwrap();
    assert_eq!(page.len(), 1);
    let page = svc.get_account_transactions(a.id, 10, 1).unwrap();
    assert_eq!(page.len(), 1);
    let page = svc.get_account_transactions(a.id, 10, 2).unwrap();
    assert_eq!(page.len(), 0);
    let page = svc.get_account_transactions(a.id, 0, 0).unwrap();
    assert_eq!(page.len(), 0);
}

#[test]
fn entries_for_transaction_ascend_by_timestamp() {
    let mut svc = service();
    let a = svc.create_account(AccountType::Asset, "USD").unwrap();
    let b = svc.create_account(AccountType::Asset, "USD").unwrap();
    svc.credit_account(a.id, 500, "deposit", "k1").unwrap();
    let t = svc.transfer(a.id, b.id, 200, "payment", "k2").unwrap();
    let entries = svc.store.get_entries_for_transaction(t.id).unwrap();
    assert_eq!(entries.len(), 2);
    for w in entries.windows(2) {
        assert!(w[0].timestamp <= w[1].timestamp);
    }
    assert!(entries.iter().all(|e| e.transaction_id == t.id));
}

#[test]
fn account_fields_and_normal_side() {
    let mut svc = service();
    let a = svc.create_account(AccountType::Asset, "EUR").unwrap();
    assert!(matches!(a.account_type, AccountType::Asset));
    assert_eq!(a.currency, "EUR");
    assert!(a.increases_on_debit());
    let l = svc.create_account(AccountType::Liability, "EUR").unwrap();
    assert!(!l.increases_on_debit());
    let looked_up = svc.store.get_account(a.id).unwrap().unwrap();
    assert_eq!(looked_up.id, a.id);
    assert_eq!(looked_up.currency, "EUR");
}

#[test]
fn balance_of_unknown_account_is_zero() {
    let svc = service();
    assert_eq!(svc.get_account_balance(123456).unwrap(), 0);
}

#[test]
fn duplicate_account_id_rejected_by_store() {
    let mut store = InMemoryLedgerStore::new();
    let a = ledger::account::Account::new(AccountType::Asset, "USD");
    assert!(store.create_account(&a).is_ok());
    assert!(matches!(
        store.create_account(&a),
        Err(LedgerError::DatabaseError)
    ));
    assert_eq!(store.accounts.len(), 1);
}

#[test]
fn store_rejects_inconsistent_entry_batch() {
    // A transfer whose batch carries only the debit half violates the
    // store's shape constraint and must leave nothing behind.
    let mut store = InMemoryLedgerStore::new();
    let a = ledger::account::Account::new(AccountType::Asset, "USD");
    let b = ledger::account::Account::new(AccountType::Asset, "USD");
    store.create_account(&a).unwrap();
    store.create_account(&b).unwrap();
    let t = Transaction::new(TransactionType::Transfer, 100, Some(a.id), Some(b.id), "r", "k");
    let lone_debit = ledger::entry::Entry::new(t.id, a.id, 100, EntryType::Debit, -100);
    let r = store.record_transaction(&t, &vec![lone_debit]);
    assert!(matches!(r, Err(LedgerError::DatabaseError)));
    assert_eq!(store.transactions.len(), 0);
    assert_eq!(store.entries.len(), 0);
}

#[test]
fn store_rejects_stale_balance_snapshot() {
    // A credit whose balance_after does not match the recomputed balance is
    // a serialization conflict and must be rejected.
    let mut store = InMemoryLedgerStore::new();
    let a = ledger::account::Account::new(AccountType::Asset, "USD");
    store.create_account(&a).unwrap();
    let t = Transaction::new(TransactionType::Credit, 100, None, Some(a.id), "r", "k");
    let stale = ledger::entry::Entry::new(t.id, a.id, 100, EntryType::Credit, 9999);
    let r = store.record_transaction(&t, &vec![stale]);
    assert!(matches!(r, Err(LedgerError::DatabaseError)));
    assert_eq!(store.entries.len(), 0);
}

#[test]
fn store_recheck_rejects_overdraft_batch() {
    // Even a shape-correct debit that would drive the balance negative is
    // stopped by the commit's own funds re-check.
    let mut store = InMemoryLedgerStore::new();
    let a = ledger::account::Account::new(AccountType::Asset, "USD");
    store.create_account(&a).unwrap();
    let t = Transaction::new(TransactionType::Debit, 100, Some(a.id), None, "r", "k");
    let d = ledger::entry::Entry::new(t.id, a.id, 100, EntryType::Debit, -100);
    let r = store.record_transaction(&t, &vec![d]);
    assert!(matches!(r, Err(LedgerError::InsufficientBalance)));
    assert_eq!(store.entries.len(), 0);
}

#[test]
fn get_transaction_by_id_and_key() {
    let mut svc = service();
    let a = svc.create_account(AccountType::Asset, "USD").unwrap();
    let t = svc.credit_account(a.id, 55, "deposit", "lookup-key").unwrap();
    let by_id = svc.store.get_transaction(t.id).unwrap().unwrap();
    assert_eq!(by_id.id, t.id);
    assert_eq!(by_id.amount, 55);
    let by_key = svc
        .store
        .get_transaction_by_key(&"lookup-key".to_string())
        .unwrap()
        .unwrap();
    assert_eq!(by_key.id, t.id);
    assert!(svc.store.get_transaction(0).unwrap().is_none());
    assert!(svc
        .store
        .get_transaction_by_key(&"absent".to_string())
        .unwrap()
        .is_none());
}
