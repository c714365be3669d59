use vstd::multiset::Multiset;
use vstd::prelude::*;

use crate::account::Account;
use crate::entry::{signed_amount, Entry, EntryType};
use crate::transaction::{spec_validate, Transaction, TransactionError, TransactionType};

verus! {

broadcast use
    vstd::seq_lib::group_to_multiset_ensures,
    vstd::seq_lib::group_filter_ensures,
    Seq::lemma_filter_push,
    Seq::lemma_take_succ_push,
    vstd::multiset::group_multiset_axioms,
;

/// Why a storage operation failed. `DatabaseError` stands for a
/// storage-level constraint violation or conflict: a duplicate row
/// identifier, a stale balance snapshot, or a numeric value out of range.
#[derive(Clone, Copy, Debug, PartialEq, Eq, Structural)]
pub enum LedgerError {
    DatabaseError,
    AccountNotFound,
    InsufficientBalance,
    TransactionError(TransactionError),
    IdempotencyViolation,
}

/// Whether an account with this id exists.
pub open spec fn account_found(accounts: Seq<Account>, account_id: u128) -> bool {
    exists|i: int| 0 <= i < accounts.len() && accounts[i].id == account_id
}

/// Whether a transaction with this id exists.
pub open spec fn tx_id_found(transactions: Seq<Transaction>, id: u128) -> bool {
    exists|i: int| 0 <= i < transactions.len() && transactions[i].id == id
}

/// Whether a transaction with this idempotency key exists.
pub open spec fn key_found(transactions: Seq<Transaction>, key: Seq<char>) -> bool {
    exists|i: int| 0 <= i < transactions.len() && transactions[i].idempotency_key@ == key
}

/// Whether an entry with this id exists.
pub open spec fn entry_id_found(entries: Seq<Entry>, id: u128) -> bool {
    exists|i: int| 0 <= i < entries.len() && entries[i].id == id
}

/// The derived balance of an account: the signed sum, Credits positive and
/// Debits negative, of every entry against it, in commit order.
pub open spec fn balance_in(entries: Seq<Entry>, account_id: u128) -> int
    decreases entries.len(),
{
    if entries.len() == 0 {
        0
    } else {
        balance_in(entries.drop_last(), account_id) + if entries.last().account_id == account_id {
            signed_amount(entries.last())
        } else {
            0
        }
    }
}

/// The signed sum of every entry belonging to one transaction.
pub open spec fn tx_signed_sum(entries: Seq<Entry>, transaction_id: u128) -> int
    decreases entries.len(),
{
    if entries.len() == 0 {
        0
    } else {
        tx_signed_sum(entries.drop_last(), transaction_id) + if entries.last().transaction_id
            == transaction_id {
            signed_amount(entries.last())
        } else {
            0
        }
    }
}

/// Every entry carries a strictly positive amount.
pub open spec fn amounts_positive(entries: Seq<Entry>) -> bool {
    forall|i: int| 0 <= i < entries.len() ==> (#[trigger] entries[i]).amount > 0
}

/// Every entry's `balance_after` is the true recomputed balance of its
/// account at its point in the history, and no entry ever leaves an
/// account's balance negative.
pub open spec fn balances_ok(entries: Seq<Entry>) -> bool {
    forall|i: int|
        0 <= i < entries.len() ==> {
            &&& (#[trigger] entries[i]).balance_after as int == balance_in(
                entries.take(i + 1),
                entries[i].account_id,
            )
            &&& entries[i].balance_after >= 0
        }
}

/// Appending one entry moves the balance of its account by its signed
/// amount and leaves every other account's balance unchanged.
pub proof fn lemma_balance_push(entries: Seq<Entry>, e: Entry, account_id: u128)
    ensures
        balance_in(entries.push(e), account_id) == balance_in(entries, account_id) + if e.account_id
            == account_id {
            signed_amount(e)
        } else {
            0
        },
{
    assert(entries.push(e).drop_last() =~= entries);
    assert(entries.push(e).last() == e);
}

/// Appending one entry adds its signed amount to its own transaction's sum
/// and leaves every other transaction's sum unchanged.
pub proof fn lemma_tx_sum_push(entries: Seq<Entry>, e: Entry, transaction_id: u128)
    ensures
        tx_signed_sum(entries.push(e), transaction_id) == tx_signed_sum(entries, transaction_id)
            + if e.transaction_id == transaction_id {
            signed_amount(e)
        } else {
            0
        },
{
    assert(entries.push(e).drop_last() =~= entries);
    assert(entries.push(e).last() == e);
}

/// A transaction none of whose entries exist has a zero signed sum.
pub proof fn lemma_tx_sum_absent(entries: Seq<Entry>, transaction_id: u128)
    requires
        forall|i: int|
            0 <= i < entries.len() ==> (#[trigger] entries[i]).transaction_id != transaction_id,
    ensures
        tx_signed_sum(entries, transaction_id) == 0,
    decreases entries.len(),
{
    if entries.len() > 0 {
        assert(entries.drop_last() =~= entries.take(entries.len() - 1));
        lemma_tx_sum_absent(entries.drop_last(), transaction_id);
    }
}

/// Balance-correctness of a history is inherited by each of its prefixes.
pub proof fn lemma_balances_ok_prefix(entries: Seq<Entry>, n: int)
    requires
        balances_ok(entries),
        0 <= n <= entries.len(),
    ensures
        balances_ok(entries.take(n)),
{
    assert forall|i: int| 0 <= i < entries.take(n).len() implies {
        &&& (#[trigger] entries.take(n)[i]).balance_after as int == balance_in(
            entries.take(n).take(i + 1),
            entries.take(n)[i].account_id,
        )
        &&& entries.take(n)[i].balance_after >= 0
    } by {
        assert(entries.take(n).take(i + 1) =~= entries.take(i + 1));
        assert(entries.take(n)[i] == entries[i]);
    }
}

/// In a balance-correct history no account's balance is ever negative, and
/// every balance fits the fixed-point representation.
pub proof fn lemma_balance_bounds(entries: Seq<Entry>, account_id: u128)
    requires
        balances_ok(entries),
    ensures
        0 <= balance_in(entries, account_id) <= i64::MAX,
    decreases entries.len(),
{
    if entries.len() > 0 {
        let n = entries.len() as int;
        assert(entries.drop_last() =~= entries.take(n - 1));
        lemma_balances_ok_prefix(entries, n - 1);
        lemma_balance_bounds(entries.drop_last(), account_id);
        if entries.last().account_id == account_id {
            assert(entries.take(n) =~= entries);
            assert(entries[n - 1].balance_after as int == balance_in(entries, account_id));
        }
    }
}

/// Whether a batch of entries fully represents its transaction: every entry
/// names the transaction and a positive amount, and the batch has the shape
/// the transaction type demands — a credit is one Credit entry at the
/// destination, a debit one Debit entry at the source, a transfer exactly a
/// Debit at the source followed by a matching Credit at the destination,
/// all for the transaction's own amount. Reversals and adjustments carry no
/// further shape constraint in this core.
pub open spec fn entries_consistent(t: Transaction, es: Seq<Entry>) -> bool {
    &&& forall|i: int|
        0 <= i < es.len() ==> (#[trigger] es[i]).transaction_id == t.id && es[i].amount > 0
    &&& match t.transaction_type {
        TransactionType::Credit => es.len() == 1 && t.destination_account_id == Some(
            es[0].account_id,
        ) && es[0].entry_type is Credit && es[0].amount == t.amount,
        TransactionType::Debit => es.len() == 1 && t.source_account_id == Some(es[0].account_id)
            && es[0].entry_type is Debit && es[0].amount == t.amount,
        TransactionType::Transfer => es.len() == 2 && t.source_account_id == Some(es[0].account_id)
            && es[0].entry_type is Debit && es[0].amount == t.amount && t.destination_account_id
            == Some(es[1].account_id) && es[1].entry_type is Credit && es[1].amount == t.amount,
        _ => true,
    }
}

/// Whether the new row identifiers collide with nothing: the transaction id
/// is unused, and the entry ids are unused and pairwise distinct.
pub open spec fn ids_fresh(
    transactions: Seq<Transaction>,
    stored: Seq<Entry>,
    t: Transaction,
    es: Seq<Entry>,
) -> bool {
    &&& !tx_id_found(transactions, t.id)
    &&& forall|i: int| 0 <= i < es.len() ==> !entry_id_found(stored, (#[trigger] es[i]).id)
    &&& forall|i: int, j: int|
        0 <= i < j < es.len() ==> (#[trigger] es[i]).id != (#[trigger] es[j]).id
}

/// The per-entry acceptance check of the commit protocol, walking the batch
/// in order against the balances it accumulates: the account must exist,
/// the new balance must fit the fixed-point representation, must not be
/// negative (the atomic re-check of the funds rule), and must equal the
/// `balance_after` snapshot the generator embedded — a mismatch means the
/// snapshot went stale, a serialization conflict.
pub open spec fn batch_entry_error(
    accounts: Seq<Account>,
    stored: Seq<Entry>,
    es: Seq<Entry>,
) -> Option<LedgerError>
    decreases es.len(),
{
    if es.len() == 0 {
        None
    } else {
        let e = es[0];
        if !account_found(accounts, e.account_id) {
            Some(LedgerError::AccountNotFound)
        } else {
            let nb = balance_in(stored, e.account_id) + signed_amount(e);
            if nb > i64::MAX {
                Some(LedgerError::DatabaseError)
            } else if nb < 0 {
                Some(LedgerError::InsufficientBalance)
            } else if e.balance_after as int != nb {
                Some(LedgerError::DatabaseError)
            } else {
                batch_entry_error(accounts, stored.push(e), es.skip(1))
            }
        }
    }
}

/// The whole acceptance cascade of the atomic commit, in the order the
/// store checks it: the idempotency key must be unused; the transaction
/// must be structurally valid and its entries must represent it; every
/// entry must pass the per-entry balance checks; and the new row
/// identifiers must be fresh. `None` means the commit is accepted.
pub open spec fn commit_error(
    pre: InMemoryLedgerStore,
    t: Transaction,
    es: Seq<Entry>,
) -> Option<LedgerError> {
    if key_found(pre.transactions@, t.idempotency_key@) {
        Some(LedgerError::IdempotencyViolation)
    } else if !(spec_validate(t) is Ok) || !entries_consistent(t, es) {
        Some(LedgerError::DatabaseError)
    } else if batch_entry_error(pre.accounts@, pre.entries@, es) is Some {
        batch_entry_error(pre.accounts@, pre.entries@, es)
    } else if !ids_fresh(pre.transactions@, pre.entries@, t, es) {
        Some(LedgerError::DatabaseError)
    } else {
        None
    }
}

/// Appending entries of other transactions does not change a transaction's
/// signed sum.
pub proof fn lemma_tx_sum_append_absent(s: Seq<Entry>, b: Seq<Entry>, transaction_id: u128)
    requires
        forall|i: int| 0 <= i < b.len() ==> (#[trigger] b[i]).transaction_id != transaction_id,
    ensures
        tx_signed_sum(s + b, transaction_id) == tx_signed_sum(s, transaction_id),
    decreases b.len(),
{
    if b.len() == 0 {
        assert(s + b =~= s);
    } else {
        assert(s + b =~= (s + b.drop_last()).push(b.last()));
        lemma_tx_sum_push(s + b.drop_last(), b.last(), transaction_id);
        assert(forall|i: int|
            0 <= i < b.drop_last().len() ==> (#[trigger] b.drop_last()[i]).transaction_id
                != transaction_id);
        lemma_tx_sum_append_absent(s, b.drop_last(), transaction_id);
    }
}

/// Whether a transaction (by id) has at least one entry against an account.
pub open spec fn tx_touches(entries: Seq<Entry>, account_id: u128, tx_id: u128) -> bool {
    exists|i: int|
        0 <= i < entries.len() && (#[trigger] entries[i]).transaction_id == tx_id
            && entries[i].account_id == account_id
}

/// Ascending order by timestamp.
pub open spec fn entries_time_sorted(es: Seq<Entry>) -> bool {
    forall|i: int, j: int|
        0 <= i < j < es.len() ==> (#[trigger] es[i]).timestamp <= (#[trigger] es[j]).timestamp
}

/// Descending order by timestamp.
pub open spec fn txs_time_sorted_desc(ts: Seq<Transaction>) -> bool {
    forall|i: int, j: int|
        0 <= i < j < ts.len() ==> (#[trigger] ts[i]).timestamp >= (#[trigger] ts[j]).timestamp
}

/// An accepted commit preserves the store invariant: appending one valid
/// transaction together with the consistent, balance-checked entries that
/// represent it keeps every table well-formed.
proof fn lemma_record_wf(
    pre: InMemoryLedgerStore,
    post: InMemoryLedgerStore,
    t: Transaction,
    b: Seq<Entry>,
)
    requires
        pre.wf(),
        spec_validate(t) is Ok,
        entries_consistent(t, b),
        !key_found(pre.transactions@, t.idempotency_key@),
        ids_fresh(pre.transactions@, pre.entries@, t, b),
        balances_ok(pre.entries@ + b),
        forall|j: int|
            0 <= j < b.len() ==> account_found(pre.accounts@, (#[trigger] b[j]).account_id),
        post.accounts@ == pre.accounts@,
        post.transactions@ == pre.transactions@.push(t),
        post.entries@ == pre.entries@ + b,
    ensures
        post.wf(),
{
    let a = pre.accounts@;
    let ts = pre.transactions@;
    let s = pre.entries@;
    let ts2 = post.transactions@;
    let es2 = post.entries@;
    let sl = s.len() as int;
    let tl = ts.len() as int;
    assert forall|i: int, j: int| 0 <= i < j < ts2.len() implies (#[trigger] ts2[i]).id != (
    #[trigger] ts2[j]).id by {
        if j == tl {
            assert(ts2[i] == ts[i]);
            assert(ts2[j] == t);
        } else {
            assert(ts2[i] == ts[i]);
            assert(ts2[j] == ts[j]);
        }
    }
    assert forall|i: int, j: int| 0 <= i < j < ts2.len() implies (
    #[trigger] ts2[i]).idempotency_key@ != (#[trigger] ts2[j]).idempotency_key@ by {
        if j == tl {
            assert(ts2[i] == ts[i]);
            assert(ts2[j] == t);
        } else {
            assert(ts2[i] == ts[i]);
            assert(ts2[j] == ts[j]);
        }
    }
    assert forall|i: int, j: int| 0 <= i < j < es2.len() implies (#[trigger] es2[i]).id != (
    #[trigger] es2[j]).id by {
        if j < sl {
            assert(es2[i] == s[i]);
            assert(es2[j] == s[j]);
        } else if i < sl {
            assert(es2[i] == s[i]);
            assert(es2[j] == b[j - sl]);
            assert(!entry_id_found(s, b[j - sl].id));
        } else {
            assert(es2[i] == b[i - sl]);
            assert(es2[j] == b[j - sl]);
        }
    }
    assert forall|i: int| 0 <= i < es2.len() implies account_found(
        post.accounts@,
        (#[trigger] es2[i]).account_id,
    ) by {
        if i < sl {
            assert(es2[i] == s[i]);
        } else {
            assert(es2[i] == b[i - sl]);
        }
    }
    assert forall|i: int| 0 <= i < es2.len() implies tx_id_found(
        ts2,
        (#[trigger] es2[i]).transaction_id,
    ) by {
        if i < sl {
            assert(es2[i] == s[i]);
            let w = choose|w: int| 0 <= w < ts.len() && ts[w].id == s[i].transaction_id;
            assert(ts2[w] == ts[w]);
        } else {
            assert(es2[i] == b[i - sl]);
            assert(es2[i].transaction_id == t.id);
            assert(ts2[tl] == t);
        }
    }
    assert forall|i: int| 0 <= i < es2.len() implies (#[trigger] es2[i]).amount > 0 by {
        if i < sl {
            assert(es2[i] == s[i]);
        } else {
            assert(es2[i] == b[i - sl]);
        }
    }
    assert forall|k: int| 0 <= k < ts2.len() implies spec_validate(#[trigger] ts2[k]) is Ok by {
        if k < tl {
            assert(ts2[k] == ts[k]);
        } else {
            assert(ts2[k] == t);
        }
    }
    assert forall|k: int|
        0 <= k < ts2.len() && (#[trigger] ts2[k]).transaction_type is Transfer implies tx_signed_sum(
        es2,
        ts2[k].id,
    ) == 0 by {
        assert(forall|i: int| 0 <= i < b.len() ==> (#[trigger] b[i]).transaction_id == t.id);
        if k < tl {
            assert(ts2[k] == ts[k]);
            assert(ts[k].id != t.id);
            lemma_tx_sum_append_absent(s, b, ts[k].id);
        } else {
            assert(ts2[k] == t);
            assert forall|i: int| 0 <= i < s.len() implies (#[trigger] s[i]).transaction_id != t.id by {
                let w = choose|w: int| 0 <= w < ts.len() && ts[w].id == s[i].transaction_id;
                assert(ts[w].id != t.id);
            }
            lemma_tx_sum_absent(s, t.id);
            let c1 = s.push(b[0]);
            assert(es2 =~= c1.push(b[1]));
            lemma_tx_sum_push(s, b[0], t.id);
            lemma_tx_sum_push(c1, b[1], t.id);
            assert(signed_amount(b[0]) == -(b[0].amount as int));
            assert(signed_amount(b[1]) == b[1].amount as int);
            assert(b[0].amount == t.amount && b[1].amount == t.amount);
        }
    }
}

/// The balance of an account is not changed by entries of other accounts
/// that follow its last entry.
proof fn lemma_balance_no_tail(es: Seq<Entry>, account_id: u128, j: int)
    requires
        0 <= j < es.len(),
        forall|k: int| j < k < es.len() ==> (#[trigger] es[k]).account_id != account_id,
    ensures
        balance_in(es, account_id) == balance_in(es.take(j + 1), account_id),
    decreases es.len(),
{
    if es.len() == j + 1 {
        assert(es.take(j + 1) =~= es);
    } else {
        assert(es.last().account_id != account_id);
        assert(forall|k: int|
            j < k < es.drop_last().len() ==> (#[trigger] es.drop_last()[k]).account_id
                != account_id);
        lemma_balance_no_tail(es.drop_last(), account_id, j);
        assert(es.drop_last().take(j + 1) =~= es.take(j + 1));
    }
}

/// Double-entry law: in every well-formed ledger state, the signed amounts
/// of a committed transfer's entries — Credit positive, Debit negative —
/// sum to exactly zero.
pub proof fn lemma_transfer_balanced(l: &InMemoryLedgerStore, k: int)
    requires
        l.wf(),
        0 <= k < l.transactions@.len(),
        l.transactions@[k].transaction_type is Transfer,
    ensures
        tx_signed_sum(l.entries@, l.transactions@[k].id) == 0,
{
}

/// Overdraft-freedom law: in every well-formed ledger state, every
/// account's derived balance is non-negative, and fits the fixed-point
/// representation.
pub proof fn lemma_no_overdraft(l: &InMemoryLedgerStore, account_id: u128)
    requires
        l.wf(),
    ensures
        0 <= balance_in(l.entries@, account_id) <= i64::MAX,
{
    lemma_balance_bounds(l.entries@, account_id);
}

/// Balance-agreement law: in every well-formed ledger state, the derived
/// balance of an account — the signed sum of all its committed entries —
/// equals the `balance_after` of its most recently committed entry.
pub proof fn lemma_balance_matches_last_entry(l: &InMemoryLedgerStore, j: int)
    requires
        l.wf(),
        0 <= j < l.entries@.len(),
        forall|k: int|
            j < k < l.entries@.len() ==> (#[trigger] l.entries@[k]).account_id
                != l.entries@[j].account_id,
    ensures
        l.entries@[j].balance_after as int == balance_in(l.entries@, l.entries@[j].account_id),
{
    lemma_balance_no_tail(l.entries@, l.entries@[j].account_id, j);
}

/// Idempotency law, persistence half: in every well-formed ledger state, at
/// most one transaction carries a given idempotency key, so a key that was
/// accepted once can never denote two persisted transactions.
pub proof fn lemma_idempotency_key_unique(l: &InMemoryLedgerStore, i: int, j: int)
    requires
        l.wf(),
        0 <= i < l.transactions@.len(),
        0 <= j < l.transactions@.len(),
        l.transactions@[i].idempotency_key@ == l.transactions@[j].idempotency_key@,
    ensures
        i == j,
{
    if i < j {
        assert(l.transactions@[i].idempotency_key@ != l.transactions@[j].idempotency_key@);
    }
    if j < i {
        assert(l.transactions@[j].idempotency_key@ != l.transactions@[i].idempotency_key@);
    }
}

/// One committed transfer of `amount` from `source` to `destination`, seen
/// on the entry log: the log grows by exactly the balanced Debit/Credit
/// pair that the commit protocol accepts for a transfer.
pub open spec fn transfer_step(
    pre: InMemoryLedgerStore,
    post: InMemoryLedgerStore,
    source: u128,
    destination: u128,
    amount: int,
) -> bool {
    exists|d: Entry, c: Entry|
        #![auto]
        {
            &&& post.entries@ == pre.entries@.push(d).push(c)
            &&& d.account_id == source
            &&& d.entry_type is Debit
            &&& d.amount as int == amount
            &&& c.account_id == destination
            &&& c.entry_type is Credit
            &&& c.amount as int == amount
        }
}

/// A committed transfer between two distinct accounts moves exactly its
/// amount: the source's balance drops by it, the destination's rises by it.
pub proof fn lemma_transfer_step_balance(
    pre: InMemoryLedgerStore,
    post: InMemoryLedgerStore,
    source: u128,
    destination: u128,
    amount: int,
)
    requires
        transfer_step(pre, post, source, destination, amount),
        source != destination,
    ensures
        balance_in(post.entries@, source) == balance_in(pre.entries@, source) - amount,
        balance_in(post.entries@, destination) == balance_in(pre.entries@, destination) + amount,
{
    let (d, c) = choose|d: Entry, c: Entry|
        #![auto]
        {
            &&& post.entries@ == pre.entries@.push(d).push(c)
            &&& d.account_id == source
            &&& d.entry_type is Debit
            &&& d.amount as int == amount
            &&& c.account_id == destination
            &&& c.entry_type is Credit
            &&& c.amount as int == amount
        };
    lemma_balance_push(pre.entries@, d, source);
    lemma_balance_push(pre.entries@, d, destination);
    lemma_balance_push(pre.entries@.push(d), c, source);
    lemma_balance_push(pre.entries@.push(d), c, destination);
}

/// No-double-spend law: starting from a source balance of exactly
/// `n * amount`, a serialized run of `n` committed transfers of `amount`
/// drains the balance to exactly zero — so a further transfer of `amount`
/// is underfunded and the commit protocol rejects it, and since every
/// commit serializes on the store, no interleaving of concurrent transfers
/// can ever overdraw (`lemma_no_overdraft`).
pub proof fn lemma_no_double_spend(
    states: Seq<InMemoryLedgerStore>,
    source: u128,
    destination: u128,
    amount: int,
    n: nat,
)
    requires
        amount > 0,
        source != destination,
        states.len() == n + 1,
        balance_in(states[0].entries@, source) == n as int * amount,
        forall|i: int|
            0 <= i < n ==> transfer_step(
                #[trigger] states[i],
                states[i + 1],
                source,
                destination,
                amount,
            ),
    ensures
        balance_in(states[n as int].entries@, source) == 0,
        balance_in(states[n as int].entries@, source) < amount,
    decreases n,
{
    if n == 0 {
        assert(n as int * amount == 0) by (nonlinear_arith)
            requires
                n == 0,
        ;
        assert(balance_in(states[0].entries@, source) == 0);
    } else {
        lemma_transfer_step_balance(states[0], states[1], source, destination, amount);
        assert(n as int * amount - amount == (n - 1) as int * amount) by (nonlinear_arith);
        let rest = states.skip(1);
        assert(rest[0] == states[1]);
        assert forall|i: int|
            0 <= i < n - 1 implies transfer_step(
            #[trigger] rest[i],
            rest[i + 1],
            source,
            destination,
            amount,
        ) by {
            assert(rest[i] == states[i + 1]);
            assert(rest[i + 1] == states[i + 2]);
        }
        assert(balance_in(rest[0].entries@, source) == (n - 1) as int * amount);
        lemma_no_double_spend(rest, source, destination, amount, (n - 1) as nat);
        assert(rest[(n - 1) as int] == states[n as int]);
        assert(balance_in(states[n as int].entries@, source) == 0);
    }
}

/// The in-memory storage backend: three append-only tables. It supplies the
/// atomic, idempotency-checked commit that the orchestrator requires; every
/// mutation either installs the whole transaction with its entries or
/// changes nothing.
pub struct InMemoryLedgerStore {
    pub accounts: Vec<Account>,
    pub transactions: Vec<Transaction>,
    pub entries: Vec<Entry>,
}

impl InMemoryLedgerStore {
    /// The store's invariant: row identifiers and idempotency keys are
    /// unique; every entry belongs to an existing account and an existing
    /// transaction and carries a positive amount; every recorded
    /// transaction is structurally valid; every `balance_after` is the true
    /// recomputed balance at its point in the history and never negative;
    /// and every transfer's entries sum, signed, to zero.
    pub open spec fn wf(&self) -> bool {
        &&& forall|i: int, j: int|
            0 <= i < j < self.accounts@.len() ==> (#[trigger] self.accounts@[i]).id != (
            #[trigger] self.accounts@[j]).id
        &&& forall|i: int, j: int|
            0 <= i < j < self.transactions@.len() ==> (#[trigger] self.transactions@[i]).id != (
            #[trigger] self.transactions@[j]).id
        &&& forall|i: int, j: int|
            0 <= i < j < self.transactions@.len() ==> (
            #[trigger] self.transactions@[i]).idempotency_key@ != (
            #[trigger] self.transactions@[j]).idempotency_key@
        &&& forall|i: int, j: int|
            0 <= i < j < self.entries@.len() ==> (#[trigger] self.entries@[i]).id != (
            #[trigger] self.entries@[j]).id
        &&& forall|i: int|
            0 <= i < self.entries@.len() ==> account_found(
                self.accounts@,
                (#[trigger] self.entries@[i]).account_id,
            )
        &&& forall|i: int|
            0 <= i < self.entries@.len() ==> tx_id_found(
                self.transactions@,
                (#[trigger] self.entries@[i]).transaction_id,
            )
        &&& amounts_positive(self.entries@)
        &&& balances_ok(self.entries@)
        &&& forall|k: int|
            0 <= k < self.transactions@.len() ==> spec_validate(#[trigger] self.transactions@[k])
                is Ok
        &&& forall|k: int|
            0 <= k < self.transactions@.len() && (#[trigger] self.transactions@[k]).transaction_type
                is Transfer ==> tx_signed_sum(self.entries@, self.transactions@[k].id) == 0
    }

    /// An empty ledger.
    pub fn new() -> (r: Self)
        ensures
            r.wf(),
            r.accounts@ == Seq::<Account>::empty(),
            r.transactions@ == Seq::<Transaction>::empty(),
            r.entries@ == Seq::<Entry>::empty(),
    {
        InMemoryLedgerStore { accounts: Vec::new(), transactions: Vec::new(), entries: Vec::new() }
    }

    /// Whether an account with this id exists.
    pub fn has_account(&self, account_id: u128) -> (r: bool)
        ensures
            r == account_found(self.accounts@, account_id),
    {
        let n = self.accounts.len();
        let mut i: usize = 0;
        while i < n
            invariant
                n == self.accounts@.len(),
                0 <= i <= n,
                forall|k: int| 0 <= k < i ==> (#[trigger] self.accounts@[k]).id != account_id,
            decreases n - i,
        {
            if self.accounts[i].id == account_id {
                return true;
            }
            i += 1;
        }
        false
    }

    /// Insert one account row; a duplicate id is rejected as a key
    /// constraint violation and changes nothing.
    pub fn create_account(&mut self, account: &Account) -> (r: Result<(), LedgerError>)
        requires
            old(self).wf(),
        ensures
            final(self).wf(),
            final(self).transactions@ == old(self).transactions@,
            final(self).entries@ == old(self).entries@,
            match r {
                Ok(()) => !account_found(old(self).accounts@, account.id) && final(self).accounts@
                    == old(self).accounts@.push(*account),
                Err(e) => e == LedgerError::DatabaseError && account_found(
                    old(self).accounts@,
                    account.id,
                ) && final(self).accounts@ == old(self).accounts@,
            },
    {
        if self.has_account(account.id) {
            return Err(LedgerError::DatabaseError);
        }
        self.accounts.push(account.clone());
        proof {
            assert forall|i: int|
                0 <= i < self.entries@.len() implies account_found(
                self.accounts@,
                (#[trigger] self.entries@[i]).account_id,
            ) by {
                let w = choose|w: int|
                    0 <= w < old(self).accounts@.len() && old(self).accounts@[w].id
                        == self.entries@[i].account_id;
                assert(self.accounts@[w].id == self.entries@[i].account_id);
            }
        }
        Ok(())
    }

    /// Look an account up by id; the returned value is an exact copy of the
    /// stored row.
    pub fn get_account(&self, account_id: u128) -> (r: Result<Option<Account>, LedgerError>)
        requires
            self.wf(),
        ensures
            match r {
                Ok(Some(a)) => account_found(self.accounts@, account_id) && a.id == account_id
                    && self.accounts@.contains(a),
                Ok(None) => !account_found(self.accounts@, account_id),
                Err(_) => false,
            },
    {
        let n = self.accounts.len();
        let mut i: usize = 0;
        while i < n
            invariant
                n == self.accounts@.len(),
                0 <= i <= n,
                forall|k: int| 0 <= k < i ==> (#[trigger] self.accounts@[k]).id != account_id,
            decreases n - i,
        {
            if self.accounts[i].id == account_id {
                let found = self.accounts[i].clone();
                return Ok(Some(found));
            }
            i += 1;
        }
        Ok(None)
    }

    /// The derived balance over the stored entries alone.
    fn balance_of(&self, account_id: u128) -> (r: i64)
        requires
            balances_ok(self.entries@),
        ensures
            r as int == balance_in(self.entries@, account_id),
    {
        let n = self.entries.len();
        let mut acc: i64 = 0;
        let mut i: usize = 0;
        while i < n
            invariant
                n == self.entries@.len(),
                0 <= i <= n,
                balances_ok(self.entries@),
                acc as int == balance_in(self.entries@.take(i as int), account_id),
            decreases n - i,
        {
            let e = self.entries[i];
            proof {
                lemma_balances_ok_prefix(self.entries@, i + 1);
                lemma_balance_bounds(self.entries@.take(i + 1), account_id);
                lemma_balance_push(self.entries@.take(i as int), self.entries@[i as int], account_id);
                assert(self.entries@.take(i + 1) =~= self.entries@.take(i as int).push(
                    self.entries@[i as int],
                ));
            }
            if e.account_id == account_id {
                match e.entry_type {
                    EntryType::Credit => {
                        acc = acc + e.amount;
                    },
                    EntryType::Debit => {
                        acc = acc - e.amount;
                    },
                }
            }
            i += 1;
        }
        proof {
            assert(self.entries@.take(n as int) =~= self.entries@);
        }
        acc
    }

    /// Whether a transaction with this idempotency key exists.
    fn key_exists(&self, key: &String) -> (r: bool)
        ensures
            r == key_found(self.transactions@, key@),
    {
        let n = self.transactions.len();
        let mut i: usize = 0;
        while i < n
            invariant
                n == self.transactions@.len(),
                0 <= i <= n,
                forall|k: int|
                    0 <= k < i ==> (#[trigger] self.transactions@[k]).idempotency_key@ != key@,
            decreases n - i,
        {
            if self.transactions[i].idempotency_key == *key {
                return true;
            }
            i += 1;
        }
        false
    }

    /// Whether a transaction with this id exists.
    fn tx_id_exists(&self, id: u128) -> (r: bool)
        ensures
            r == tx_id_found(self.transactions@, id),
    {
        let n = self.transactions.len();
        let mut i: usize = 0;
        while i < n
            invariant
                n == self.transactions@.len(),
                0 <= i <= n,
                forall|k: int| 0 <= k < i ==> (#[trigger] self.transactions@[k]).id != id,
            decreases n - i,
        {
            if self.transactions[i].id == id {
                return true;
            }
            i += 1;
        }
        false
    }

    /// Whether an entry with this id exists.
    fn entry_id_exists(&self, id: u128) -> (r: bool)
        ensures
            r == entry_id_found(self.entries@, id),
    {
        let n = self.entries.len();
        let mut i: usize = 0;
        while i < n
            invariant
                n == self.entries@.len(),
                0 <= i <= n,
                forall|k: int| 0 <= k < i ==> (#[trigger] self.entries@[k]).id != id,
            decreases n - i,
        {
            if self.entries[i].id == id {
                return true;
            }
            i += 1;
        }
        false
    }

    /// Whether the batch of entries fully represents the transaction.
    fn check_entries_consistent(t: &Transaction, es: &Vec<Entry>) -> (r: bool)
        ensures
            r == entries_consistent(*t, es@),
    {
        let n = es.len();
        let mut i: usize = 0;
        while i < n
            invariant
                n == es@.len(),
                0 <= i <= n,
                forall|k: int|
                    0 <= k < i ==> (#[trigger] es@[k]).transaction_id == t.id && es@[k].amount > 0,
            decreases n - i,
        {
            let e = es[i];
            if e.transaction_id != t.id || e.amount <= 0 {
                return false;
            }
            i += 1;
        }
        match t.transaction_type {
            TransactionType::Credit => {
                if es.len() != 1 {
                    return false;
                }
                let e0 = es[0];
                match (t.destination_account_id, e0.entry_type) {
                    (Some(d), EntryType::Credit) => d == e0.account_id && e0.amount == t.amount,
                    _ => false,
                }
            },
            TransactionType::Debit => {
                if es.len() != 1 {
                    return false;
                }
                let e0 = es[0];
                match (t.source_account_id, e0.entry_type) {
                    (Some(s), EntryType::Debit) => s == e0.account_id && e0.amount == t.amount,
                    _ => false,
                }
            },
            TransactionType::Transfer => {
                if es.len() != 2 {
                    return false;
                }
                let e0 = es[0];
                let e1 = es[1];
                match (t.source_account_id, t.destination_account_id, e0.entry_type, e1.entry_type) {
                    (Some(s), Some(d), EntryType::Debit, EntryType::Credit) => s == e0.account_id
                        && e0.amount == t.amount && d == e1.account_id && e1.amount == t.amount,
                    _ => false,
                }
            },
            _ => true,
        }
    }

    /// The derived balance of an account over the stored entries followed
    /// by the first `k` entries of a batch under validation.
    fn balance_with_batch(&self, batch: &Vec<Entry>, k: usize, account_id: u128) -> (r: i64)
        requires
            k <= batch@.len(),
            balances_ok(self.entries@ + batch@.take(k as int)),
        ensures
            r as int == balance_in(self.entries@ + batch@.take(k as int), account_id),
    {
        let ghost whole = self.entries@ + batch@.take(k as int);
        proof {
            lemma_balances_ok_prefix(whole, self.entries@.len() as int);
            assert(whole.take(self.entries@.len() as int) =~= self.entries@);
        }
        let mut acc: i64 = self.balance_of(account_id);
        let mut j: usize = 0;
        while j < k
            invariant
                k <= batch@.len(),
                0 <= j <= k,
                whole == self.entries@ + batch@.take(k as int),
                balances_ok(whole),
                acc as int == balance_in(self.entries@ + batch@.take(j as int), account_id),
            decreases k - j,
        {
            let e = batch[j];
            proof {
                let before = self.entries@ + batch@.take(j as int);
                let after = self.entries@ + batch@.take(j + 1);
                assert(after =~= before.push(batch@[j as int]));
                lemma_balance_push(before, batch@[j as int], account_id);
                assert(after =~= whole.take(self.entries@.len() + j + 1));
                lemma_balances_ok_prefix(whole, self.entries@.len() + j + 1);
                lemma_balance_bounds(after, account_id);
            }
            if e.account_id == account_id {
                match e.entry_type {
                    EntryType::Credit => {
                        acc = acc + e.amount;
                    },
                    EntryType::Debit => {
                        acc = acc - e.amount;
                    },
                }
            }
            j += 1;
        }
        acc
    }

    /// The atomic commit of the storage boundary: one all-or-nothing unit
    /// that re-checks the idempotency key, checks that the entries
    /// represent the transaction and extend every touched account's history
    /// consistently — re-verifying the funds rule under the same
    /// serialization boundary as the write — and only then installs the
    /// transaction row and every entry row together. On any failure nothing
    /// is written; `commit_error` states exactly which error comes back on
    /// which input.
    #[verifier::rlimit(80)]
    pub fn record_transaction(&mut self, transaction: &Transaction, entries: &Vec<Entry>) -> (r:
        Result<(), LedgerError>)
        requires
            old(self).wf(),
        ensures
            final(self).wf(),
            match r {
                Ok(()) => {
                    &&& commit_error(*old(self), *transaction, entries@) is None
                    &&& final(self).accounts@ == old(self).accounts@
                    &&& final(self).transactions@ == old(self).transactions@.push(*transaction)
                    &&& final(self).entries@ == old(self).entries@ + entries@
                },
                Err(e) => {
                    &&& Some(e) == commit_error(*old(self), *transaction, entries@)
                    &&& final(self).accounts@ == old(self).accounts@
                    &&& final(self).transactions@ == old(self).transactions@
                    &&& final(self).entries@ == old(self).entries@
                },
            },
    {
        // the uniqueness re-check on the idempotency key
        if self.key_exists(&transaction.idempotency_key) {
            return Err(LedgerError::IdempotencyViolation);
        }
        // structural constraints, as a storage engine's row constraints would
        if let Err(_) = transaction.validate() {
            return Err(LedgerError::DatabaseError);
        }
        if !Self::check_entries_consistent(transaction, entries) {
            return Err(LedgerError::DatabaseError);
        }
        // per-entry checks against the balances this very commit accumulates
        let n = entries.len();
        proof {
            assert(entries@.skip(0) =~= entries@);
            assert(self.entries@ + entries@.take(0) =~= self.entries@);
        }
        let mut k: usize = 0;
        while k < n
            invariant
                *self == *old(self),
                old(self).wf(),
                n == entries@.len(),
                0 <= k <= n,
                spec_validate(*transaction) is Ok,
                !key_found(old(self).transactions@, transaction.idempotency_key@),
                entries_consistent(*transaction, entries@),
                balances_ok(self.entries@ + entries@.take(k as int)),
                forall|j: int|
                    0 <= j < k ==> account_found(
                        self.accounts@,
                        (#[trigger] entries@[j]).account_id,
                    ),
                batch_entry_error(
                    self.accounts@,
                    self.entries@ + entries@.take(k as int),
                    entries@.skip(k as int),
                ) == batch_entry_error(self.accounts@, self.entries@, entries@),
            decreases n - k,
        {
            let ghost before = self.entries@ + entries@.take(k as int);
            let ghost rest = entries@.skip(k as int);
            proof {
                assert(rest[0] == entries@[k as int]);
            }
            let e = entries[k];
            if !self.has_account(e.account_id) {
                proof {
                    assert(batch_entry_error(self.accounts@, before, rest) == Some(
                        LedgerError::AccountNotFound,
                    ));
                }
                return Err(LedgerError::AccountNotFound);
            }
            let b = self.balance_with_batch(entries, k, e.account_id);
            proof {
                lemma_balance_bounds(before, e.account_id);
            }
            let nb: i64;
            match e.entry_type {
                EntryType::Credit => {
                    if b > i64::MAX - e.amount {
                        proof {
                            assert(balance_in(before, e.account_id) + signed_amount(e)
                                > i64::MAX);
                            assert(batch_entry_error(self.accounts@, before, rest) == Some(
                                LedgerError::DatabaseError,
                            ));
                        }
                        return Err(LedgerError::DatabaseError);
                    }
                    nb = b + e.amount;
                },
                EntryType::Debit => {
                    nb = b - e.amount;
                },
            }
            proof {
                assert(nb as int == balance_in(before, e.account_id) + signed_amount(e));
            }
            if nb < 0 {
                proof {
                    assert(batch_entry_error(self.accounts@, before, rest) == Some(
                        LedgerError::InsufficientBalance,
                    ));
                }
                return Err(LedgerError::InsufficientBalance);
            }
            if e.balance_after != nb {
                proof {
                    assert(batch_entry_error(self.accounts@, before, rest) == Some(
                        LedgerError::DatabaseError,
                    ));
                }
                return Err(LedgerError::DatabaseError);
            }
            proof {
                let after = self.entries@ + entries@.take(k + 1);
                assert(after =~= before.push(entries@[k as int]));
                lemma_balance_push(before, entries@[k as int], e.account_id);
                assert(balances_ok(after)) by {
                    assert forall|i: int| 0 <= i < after.len() implies {
                        &&& (#[trigger] after[i]).balance_after as int == balance_in(
                            after.take(i + 1),
                            after[i].account_id,
                        )
                        &&& after[i].balance_after >= 0
                    } by {
                        if i < before.len() {
                            assert(after.take(i + 1) =~= before.take(i + 1));
                            assert(after[i] == before[i]);
                        } else {
                            assert(after[i] == entries@[k as int]);
                            assert(after.take(i + 1) =~= after);
                        }
                    }
                }
                assert(rest.skip(1) =~= entries@.skip(k + 1));
            }
            k += 1;
        }
        proof {
            assert(entries@.take(n as int) =~= entries@);
            assert(entries@.skip(n as int).len() == 0);
            assert(batch_entry_error(self.accounts@, self.entries@, entries@) is None);
        }
        // fresh row identifiers, as primary keys would enforce
        if self.tx_id_exists(transaction.id) {
            return Err(LedgerError::DatabaseError);
        }
        let mut i: usize = 0;
        while i < n
            invariant
                *self == *old(self),
                old(self).wf(),
                n == entries@.len(),
                0 <= i <= n,
                spec_validate(*transaction) is Ok,
                !key_found(old(self).transactions@, transaction.idempotency_key@),
                entries_consistent(*transaction, entries@),
                balances_ok(old(self).entries@ + entries@),
                forall|j: int|
                    0 <= j < n ==> account_found(
                        old(self).accounts@,
                        (#[trigger] entries@[j]).account_id,
                    ),
                batch_entry_error(old(self).accounts@, old(self).entries@, entries@) is None,
                !tx_id_found(old(self).transactions@, transaction.id),
                forall|j: int|
                    0 <= j < i ==> !entry_id_found(self.entries@, (#[trigger] entries@[j]).id),
                forall|j1: int, j2: int|
                    0 <= j1 < j2 < i ==> (#[trigger] entries@[j1]).id != (
                    #[trigger] entries@[j2]).id,
            decreases n - i,
        {
            if self.entry_id_exists(entries[i].id) {
                return Err(LedgerError::DatabaseError);
            }
            let mut j: usize = 0;
            while j < i
                invariant
                    *self == *old(self),
                    old(self).wf(),
                    0 <= j <= i < n == entries@.len(),
                    spec_validate(*transaction) is Ok,
                    !key_found(old(self).transactions@, transaction.idempotency_key@),
                    entries_consistent(*transaction, entries@),
                    batch_entry_error(old(self).accounts@, old(self).entries@, entries@) is None,
                    forall|j2: int|
                        0 <= j2 < j ==> (#[trigger] entries@[j2]).id != entries@[i as int].id,
                decreases i - j,
            {
                if entries[j].id == entries[i].id {
                    return Err(LedgerError::DatabaseError);
                }
                j += 1;
            }
            i += 1;
        }
        // all checks passed: install the transaction row and every entry row
        self.transactions.push(transaction.clone());
        let mut w: usize = 0;
        while w < n
            invariant
                old(self).wf(),
                n == entries@.len(),
                0 <= w <= n,
                spec_validate(*transaction) is Ok,
                !key_found(old(self).transactions@, transaction.idempotency_key@),
                entries_consistent(*transaction, entries@),
                balances_ok(old(self).entries@ + entries@),
                forall|j: int|
                    0 <= j < n ==> account_found(
                        old(self).accounts@,
                        (#[trigger] entries@[j]).account_id,
                    ),
                batch_entry_error(old(self).accounts@, old(self).entries@, entries@) is None,
                ids_fresh(old(self).transactions@, old(self).entries@, *transaction, entries@),
                self.accounts@ == old(self).accounts@,
                self.transactions@ == old(self).transactions@.push(*transaction),
                self.entries@ == old(self).entries@ + entries@.take(w as int),
            decreases n - w,
        {
            let e = entries[w];
            self.entries.push(e);
            proof {
                assert(old(self).entries@ + entries@.take(w + 1) =~= (old(self).entries@
                    + entries@.take(w as int)).push(entries@[w as int]));
            }
            w += 1;
        }
        proof {
            assert(entries@.take(n as int) =~= entries@);
            lemma_record_wf(*old(self), *self, *transaction, entries@);
        }
        Ok(())
    }

    /// Selection sort of entries, ascending by timestamp.
    fn sort_entries_ascending(v: Vec<Entry>) -> (r: Vec<Entry>)
        ensures
            entries_time_sorted(r@),
            r@.to_multiset() == v@.to_multiset(),
    {
        let mut src = v;
        let mut out: Vec<Entry> = Vec::new();
        while src.len() > 0
            invariant
                out@.to_multiset().add(src@.to_multiset()) == v@.to_multiset(),
                entries_time_sorted(out@),
                forall|i: int, j: int|
                    0 <= i < out@.len() && 0 <= j < src@.len() ==> (#[trigger] out@[i]).timestamp
                        <= (#[trigger] src@[j]).timestamp,
            decreases src.len(),
        {
            let ghost src0 = src@;
            let ghost out0 = out@;
            let mut m: usize = 0;
            let mut q: usize = 1;
            while q < src.len()
                invariant
                    src@ == src0,
                    0 <= m < q <= src@.len(),
                    forall|j: int|
                        0 <= j < q ==> src@[m as int].timestamp <= (#[trigger] src@[j]).timestamp,
                decreases src@.len() - q,
            {
                if src[q].timestamp < src[m].timestamp {
                    m = q;
                }
                q += 1;
            }
            let e = src.remove(m);
            out.push(e);
            proof {
                assert(out@.to_multiset().add(src@.to_multiset()) =~= out0.to_multiset().add(
                    src0.to_multiset(),
                ));
                assert forall|i: int, j: int|
                    0 <= i < out@.len() && 0 <= j < src@.len() implies (
                #[trigger] out@[i]).timestamp <= (#[trigger] src@[j]).timestamp by {
                    assert(src@[j] == if j < m { src0[j] } else { src0[j + 1] });
                }
            }
        }
        proof {
            assert(src@.to_multiset() =~= Multiset::<Entry>::empty());
            assert(out@.to_multiset() =~= v@.to_multiset());
        }
        out
    }

    /// Selection sort of transactions, descending by timestamp.
    fn sort_txs_descending(v: Vec<Transaction>) -> (r: Vec<Transaction>)
        ensures
            txs_time_sorted_desc(r@),
            r@.to_multiset() == v@.to_multiset(),
    {
        let mut src = v;
        let mut out: Vec<Transaction> = Vec::new();
        while src.len() > 0
            invariant
                out@.to_multiset().add(src@.to_multiset()) == v@.to_multiset(),
                txs_time_sorted_desc(out@),
                forall|i: int, j: int|
                    0 <= i < out@.len() && 0 <= j < src@.len() ==> (#[trigger] out@[i]).timestamp
                        >= (#[trigger] src@[j]).timestamp,
            decreases src.len(),
        {
            let ghost src0 = src@;
            let ghost out0 = out@;
            let mut m: usize = 0;
            let mut q: usize = 1;
            while q < src.len()
                invariant
                    src@ == src0,
                    0 <= m < q <= src@.len(),
                    forall|j: int|
                        0 <= j < q ==> src@[m as int].timestamp >= (#[trigger] src@[j]).timestamp,
                decreases src@.len() - q,
            {
                if src[q].timestamp > src[m].timestamp {
                    m = q;
                }
                q += 1;
            }
            let e = src.remove(m);
            out.push(e);
            proof {
                assert(out@.to_multiset().add(src@.to_multiset()) =~= out0.to_multiset().add(
                    src0.to_multiset(),
                ));
                assert forall|i: int, j: int|
                    0 <= i < out@.len() && 0 <= j < src@.len() implies (
                #[trigger] out@[i]).timestamp >= (#[trigger] src@[j]).timestamp by {
                    assert(src@[j] == if j < m { src0[j] } else { src0[j + 1] });
                }
            }
        }
        proof {
            assert(src@.to_multiset() =~= Multiset::<Transaction>::empty());
            assert(out@.to_multiset() =~= v@.to_multiset());
        }
        out
    }

    /// Look a transaction up by id; the returned value is an exact copy of
    /// the stored row.
    pub fn get_transaction(&self, transaction_id: u128) -> (r: Result<
        Option<Transaction>,
        LedgerError,
    >)
        requires
            self.wf(),
        ensures
            match r {
                Ok(Some(t)) => tx_id_found(self.transactions@, transaction_id) && t.id
                    == transaction_id && self.transactions@.contains(t),
                Ok(None) => !tx_id_found(self.transactions@, transaction_id),
                Err(_) => false,
            },
    {
        let n = self.transactions.len();
        let mut i: usize = 0;
        while i < n
            invariant
                n == self.transactions@.len(),
                0 <= i <= n,
                forall|k: int| 0 <= k < i ==> (#[trigger] self.transactions@[k]).id != transaction_id,
            decreases n - i,
        {
            if self.transactions[i].id == transaction_id {
                let found = self.transactions[i].clone();
                return Ok(Some(found));
            }
            i += 1;
        }
        Ok(None)
    }

    /// Look a transaction up by idempotency key; this is how a caller
    /// fetches the prior result after an `IdempotencyViolation`.
    pub fn get_transaction_by_key(&self, idempotency_key: &String) -> (r: Result<
        Option<Transaction>,
        LedgerError,
    >)
        requires
            self.wf(),
        ensures
            match r {
                Ok(Some(t)) => key_found(self.transactions@, idempotency_key@)
                    && t.idempotency_key@ == idempotency_key@ && self.transactions@.contains(t),
                Ok(None) => !key_found(self.transactions@, idempotency_key@),
                Err(_) => false,
            },
    {
        let n = self.transactions.len();
        let mut i: usize = 0;
        while i < n
            invariant
                n == self.transactions@.len(),
                0 <= i <= n,
                forall|k: int|
                    0 <= k < i ==> (#[trigger] self.transactions@[k]).idempotency_key@
                        != idempotency_key@,
            decreases n - i,
        {
            if self.transactions[i].idempotency_key == *idempotency_key {
                let found = self.transactions[i].clone();
                return Ok(Some(found));
            }
            i += 1;
        }
        Ok(None)
    }

    /// All entries of one transaction, ascending by timestamp: exactly the
    /// stored entries whose `transaction_id` matches, as a multiset.
    pub fn get_entries_for_transaction(&self, transaction_id: u128) -> (r: Result<
        Vec<Entry>,
        LedgerError,
    >)
        requires
            self.wf(),
        ensures
            match r {
                Ok(v) => entries_time_sorted(v@) && v@.to_multiset() == self.entries@.filter(
                    |e: Entry| e.transaction_id == transaction_id,
                ).to_multiset(),
                Err(_) => false,
            },
    {
        let n = self.entries.len();
        let mut matched: Vec<Entry> = Vec::new();
        let mut i: usize = 0;
        while i < n
            invariant
                n == self.entries@.len(),
                0 <= i <= n,
                matched@ == self.entries@.take(i as int).filter(
                    |e: Entry| e.transaction_id == transaction_id,
                ),
            decreases n - i,
        {
            let e = self.entries[i];
            if e.transaction_id == transaction_id {
                matched.push(e);
            }
            i += 1;
        }
        proof {
            assert(self.entries@.take(n as int) =~= self.entries@);
        }
        Ok(Self::sort_entries_ascending(matched))
    }

    /// The transactions that touch an account through at least one entry,
    /// descending by timestamp, then the page `[offset, offset + limit)` of
    /// that ordering.
    pub fn get_account_transactions(&self, account_id: u128, limit: i64, offset: i64) -> (r: Result<
        Vec<Transaction>,
        LedgerError,
    >)
        requires
            self.wf(),
            limit >= 0,
            offset >= 0,
        ensures
            match r {
                Ok(v) => exists|s: Seq<Transaction>|
                    #![auto]
                    {
                        &&& s.to_multiset() == self.transactions@.filter(
                            |t: Transaction| tx_touches(self.entries@, account_id, t.id),
                        ).to_multiset()
                        &&& txs_time_sorted_desc(s)
                        &&& v@ == s.subrange(
                            if offset as int <= s.len() {
                                offset as int
                            } else {
                                s.len() as int
                            },
                            if offset as int + limit as int <= s.len() {
                                offset as int + limit as int
                            } else {
                                s.len() as int
                            },
                        )
                    },
                Err(_) => false,
            },
    {
        let n = self.transactions.len();
        let mut matched: Vec<Transaction> = Vec::new();
        let mut i: usize = 0;
        while i < n
            invariant
                n == self.transactions@.len(),
                0 <= i <= n,
                matched@ == self.transactions@.take(i as int).filter(
                    |t: Transaction| tx_touches(self.entries@, account_id, t.id),
                ),
            decreases n - i,
        {
            let involved = self.involves_account(self.transactions[i].id, account_id);
            if involved {
                let t = self.transactions[i].clone();
                matched.push(t);
            }
            i += 1;
        }
        proof {
            assert(self.transactions@.take(n as int) =~= self.transactions@);
        }
        let sorted = Self::sort_txs_descending(matched);
        let len = sorted.len();
        let start: usize = if offset as u64 >= len as u64 {
            len
        } else {
            offset as usize
        };
        let remaining = len - start;
        let take_n: usize = if limit as u64 >= remaining as u64 {
            remaining
        } else {
            limit as usize
        };
        let end = start + take_n;
        let mut out: Vec<Transaction> = Vec::new();
        let mut w: usize = start;
        while w < end
            invariant
                start <= w <= end <= sorted@.len(),
                out@ == sorted@.subrange(start as int, w as int),
            decreases end - w,
        {
            let t = sorted[w].clone();
            out.push(t);
            proof {
                assert(sorted@.subrange(start as int, w + 1) =~= sorted@.subrange(
                    start as int,
                    w as int,
                ).push(sorted@[w as int]));
            }
            w += 1;
        }
        proof {
            assert(out@ == sorted@.subrange(
                if offset as int <= sorted@.len() {
                    offset as int
                } else {
                    sorted@.len() as int
                },
                if offset as int + limit as int <= sorted@.len() {
                    offset as int + limit as int
                } else {
                    sorted@.len() as int
                },
            ));
        }
        Ok(out)
    }

    /// Whether a transaction (by id) has at least one entry against an
    /// account.
    fn involves_account(&self, tx_id: u128, account_id: u128) -> (r: bool)
        ensures
            r == tx_touches(self.entries@, account_id, tx_id),
    {
        let n = self.entries.len();
        let mut i: usize = 0;
        while i < n
            invariant
                n == self.entries@.len(),
                0 <= i <= n,
                forall|k: int|
                    0 <= k < i ==> !((#[trigger] self.entries@[k]).transaction_id == tx_id
                        && self.entries@[k].account_id == account_id),
            decreases n - i,
        {
            let e = self.entries[i];
            if e.transaction_id == tx_id && e.account_id == account_id {
                return true;
            }
            i += 1;
        }
        false
    }

    /// The balance query of the storage boundary: the signed sum of the
    /// account's entries, zero for an account with none. Reads a consistent
    /// snapshot; it never observes a partially recorded transaction because
    /// every mutation of this store is all-or-nothing.
    pub fn get_account_balance(&self, account_id: u128) -> (r: Result<i64, LedgerError>)
        requires
            self.wf(),
        ensures
            match r {
                Ok(b) => b as int == balance_in(self.entries@, account_id),
                Err(_) => false,
            },
    {
        Ok(self.balance_of(account_id))
    }
}

} // verus!
