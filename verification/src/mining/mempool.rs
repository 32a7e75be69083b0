//! The mempool: pending transactions keyed by txid and kept in txid order.
//!
//! The pool is a vector sorted strictly by txid (the order of `String`), which
//! gives what an ordered map keyed by txid gives: one transaction per txid and a
//! deterministic listing order.

use vstd::prelude::*;
use crate::mining::error::{MinerError, MinerErrorView, result_view};
use crate::mining::types::{Transaction, TransactionView, copy_transactions, output_total, tx_views};
use crate::seq_sum::{lemma_nat_sum_take_all, lemma_nat_sum_take_le, lemma_nat_sum_take_step, nat_sum};
use crate::text::{
    chars_lt, lemma_chars_lt_irreflexive, lemma_chars_lt_total, lemma_chars_lt_transitive, str_eq,
    str_lt,
};

verus! {

/// Txids strictly increase along the sequence.
pub open spec fn sorted_by_txid(s: Seq<TransactionView>) -> bool {
    forall|i: int, j: int| 0 <= i < j < s.len() ==> chars_lt(#[trigger] s[i].txid, #[trigger] s[j].txid)
}

/// Some transaction of the sequence has txid `key`.
pub open spec fn holds_txid(s: Seq<TransactionView>, key: Seq<char>) -> bool {
    exists|i: int| 0 <= i < s.len() && (#[trigger] s[i]).txid == key
}

/// `new` is `old` with `tx` placed where its txid falls in txid order.
pub open spec fn inserted_in_txid_order(old: Seq<TransactionView>, tx: TransactionView, new: Seq<TransactionView>) -> bool {
    exists|p: int| {
        &&& 0 <= p <= old.len()
        &&& new == old.insert(p, tx)
        &&& forall|i: int| 0 <= i < p ==> chars_lt((#[trigger] old[i]).txid, tx.txid)
        &&& forall|i: int| p <= i < old.len() ==> chars_lt(tx.txid, (#[trigger] old[i]).txid)
    }
}

/// `new` is `old` without its transaction `removed`, whose txid is `key`.
pub open spec fn removed_by_txid(
    old: Seq<TransactionView>,
    key: Seq<char>,
    new: Seq<TransactionView>,
    removed: TransactionView,
) -> bool {
    exists|i: int| 0 <= i < old.len() && old[i] == removed && removed.txid == key && new == old.remove(i)
}

/// Total output value of the transactions of a pool.
pub open spec fn pool_total(s: Seq<TransactionView>) -> nat {
    nat_sum(s.map_values(|t: TransactionView| output_total(t.outputs)))
}

/// Pending transactions in txid order, at most one per txid.
#[derive(Debug, PartialEq, Eq)]
pub struct Mempool {
    transactions: Vec<Transaction>,
}

impl View for Mempool {
    type V = Seq<TransactionView>;

    closed spec fn view(&self) -> Seq<TransactionView> {
        tx_views(self.transactions@)
    }
}

/// Inserting a transaction where its txid falls keeps the order strict.
proof fn lemma_insert_keeps_order(s: Seq<TransactionView>, p: int, tx: TransactionView)
    requires
        sorted_by_txid(s),
        0 <= p <= s.len(),
        forall|i: int| 0 <= i < p ==> chars_lt((#[trigger] s[i]).txid, tx.txid),
        forall|i: int| p <= i < s.len() ==> chars_lt(tx.txid, (#[trigger] s[i]).txid),
    ensures
        sorted_by_txid(s.insert(p, tx)),
{
    let t = s.insert(p, tx);
    assert forall|i: int, j: int| 0 <= i < j < t.len() implies chars_lt(#[trigger] t[i].txid, #[trigger] t[j].txid) by {
        if i < p && j < p {
            assert(t[i] == s[i] && t[j] == s[j]);
        } else if i < p && j == p {
            assert(t[i] == s[i]);
        } else if i < p {
            assert(t[i] == s[i] && t[j] == s[j - 1]);
        } else if i == p {
            assert(t[j] == s[j - 1]);
        } else {
            assert(t[i] == s[i - 1] && t[j] == s[j - 1]);
        }
    }
}

/// Removing a transaction keeps the order strict.
proof fn lemma_remove_keeps_order(s: Seq<TransactionView>, k: int)
    requires
        sorted_by_txid(s),
        0 <= k < s.len(),
    ensures
        sorted_by_txid(s.remove(k)),
{
    let t = s.remove(k);
    assert forall|i: int, j: int| 0 <= i < j < t.len() implies chars_lt(#[trigger] t[i].txid, #[trigger] t[j].txid) by {
        let a = if i < k { i } else { i + 1 };
        let b = if j < k { j } else { j + 1 };
        assert(t[i] == s[a] && t[j] == s[b]);
    }
}

/// A suffix of a sorted sequence is sorted.
proof fn lemma_suffix_keeps_order(s: Seq<TransactionView>, k: int)
    requires
        sorted_by_txid(s),
        0 <= k <= s.len(),
    ensures
        sorted_by_txid(s.skip(k)),
{
    let t = s.skip(k);
    assert forall|i: int, j: int| 0 <= i < j < t.len() implies chars_lt(#[trigger] t[i].txid, #[trigger] t[j].txid) by {
        assert(t[i] == s[i + k] && t[j] == s[j + k]);
    }
}

impl Mempool {
    #[verifier::type_invariant]
    spec fn in_txid_order(self) -> bool {
        sorted_by_txid(tx_views(self.transactions@))
    }

    /// Create an empty mempool.
    pub fn new() -> (r: Self)
        ensures
            r@ == Seq::<TransactionView>::empty(),
            sorted_by_txid(r@),
    {
        let r = Mempool { transactions: Vec::new() };
        assert(r@ =~= Seq::<TransactionView>::empty());
        r
    }

    /// Insert a transaction by txid; a txid already in the pool is rejected with
    /// `DuplicateMempoolTransaction(txid)` and the pool is left as it was.
    pub fn add_transaction(&mut self, transaction: Transaction) -> (r: Result<(), MinerError>)
        ensures
            sorted_by_txid(old(self)@),
            sorted_by_txid(final(self)@),
            holds_txid(old(self)@, transaction.txid@) ==> final(self)@ == old(self)@ && result_view(r)
                == Err::<(), MinerErrorView>(MinerErrorView::DuplicateMempoolTransaction(transaction.txid@)),
            !holds_txid(old(self)@, transaction.txid@) ==> r is Ok && inserted_in_txid_order(
                old(self)@,
                transaction@,
                final(self)@,
            ),
    {
        proof {
            use_type_invariant(&*self);
        }
        let ghost before = self@;
        let mut txs: Vec<Transaction> = Vec::new();
        std::mem::swap(&mut txs, &mut self.transactions);
        assert(tx_views(txs@) == before);
        let key = transaction.txid.as_str();
        let mut p: usize = 0;
        while p < txs.len() && str_lt(txs[p].txid.as_str(), key)
            invariant
                p <= txs.len(),
                forall|i: int| 0 <= i < p ==> chars_lt((#[trigger] txs@[i]).txid@, key@),
            decreases txs.len() - p,
        {
            p += 1;
        }
        if p < txs.len() && str_eq(txs[p].txid.as_str(), key) {
            let txid = transaction.txid.clone();
            assert(before[p as int].txid == transaction.txid@);
            self.transactions = txs;
            assert(self@ == before);
            return Err(MinerError::DuplicateMempoolTransaction(txid));
        }
        proof {
            assert forall|i: int| p <= i < before.len() implies chars_lt(transaction.txid@, (#[trigger] before[i]).txid) by {
                assert(txs@[p as int]@ == before[p as int]);
                assert(before[p as int].txid != transaction.txid@);
                lemma_chars_lt_total(before[p as int].txid, transaction.txid@);
                if i > p {
                    lemma_chars_lt_transitive(transaction.txid@, before[p as int].txid, before[i].txid);
                }
            }
            assert forall|i: int| 0 <= i < p implies chars_lt((#[trigger] before[i]).txid, transaction.txid@) by {
                assert(txs@[i]@ == before[i]);
            }
            assert forall|i: int| 0 <= i < before.len() implies (#[trigger] before[i]).txid != transaction.txid@ by {
                lemma_chars_lt_irreflexive(transaction.txid@);
            }
            lemma_insert_keeps_order(before, p as int, transaction@);
        }
        let ghost added = transaction@;
        txs.insert(p, transaction);
        assert(tx_views(txs@) =~= before.insert(p as int, added));
        self.transactions = txs;
        Ok(())
    }

    /// Remove and return the transaction with the given txid; a missing txid is
    /// reported with `TransactionNotFound(txid)` and the pool is left as it was.
    pub fn remove_transaction(&mut self, txid: &str) -> (r: Result<Transaction, MinerError>)
        ensures
            sorted_by_txid(old(self)@),
            sorted_by_txid(final(self)@),
            holds_txid(old(self)@, txid@) ==> (r matches Ok(t) && removed_by_txid(old(self)@, txid@, final(self)@, t@)),
            !holds_txid(old(self)@, txid@) ==> final(self)@ == old(self)@ && result_view(r)
                == Err::<Transaction, MinerErrorView>(MinerErrorView::TransactionNotFound(txid@)),
    {
        proof {
            use_type_invariant(&*self);
        }
        let ghost before = self@;
        let mut txs: Vec<Transaction> = Vec::new();
        std::mem::swap(&mut txs, &mut self.transactions);
        assert(tx_views(txs@) == before);
        let mut i: usize = 0;
        while i < txs.len()
            invariant
                i <= txs.len(),
                tx_views(txs@) == before,
                before == old(self)@,
                sorted_by_txid(before),
                forall|j: int| 0 <= j < i ==> (#[trigger] txs@[j]).txid@ != txid@,
            decreases txs.len() - i,
        {
            if str_eq(txs[i].txid.as_str(), txid) {
                let removed = txs.remove(i);
                assert(removed@ == before[i as int]);
                assert(before[i as int].txid == txid@);
                proof {
                    lemma_remove_keeps_order(before, i as int);
                }
                assert(tx_views(txs@) =~= before.remove(i as int));
                self.transactions = txs;
                assert(self@ == before.remove(i as int));
                assert(holds_txid(before, txid@));
                assert(removed_by_txid(before, txid@, self@, removed@));
                return Ok(removed);
            }
            i += 1;
        }
        assert forall|j: int| 0 <= j < before.len() implies (#[trigger] before[j]).txid != txid@ by {
            assert(txs@[j]@ == before[j]);
        }
        self.transactions = txs;
        Err(MinerError::TransactionNotFound(String::from_str(txid)))
    }

    /// Return copies of the transactions in txid order, leaving the pool as it is.
    pub fn ordered_transactions(&self) -> (r: Vec<Transaction>)
        ensures
            tx_views(r@) == self@,
            sorted_by_txid(self@),
            sorted_by_txid(tx_views(r@)),
    {
        proof {
            use_type_invariant(self);
        }
        copy_transactions(&self.transactions)
    }

    /// Remove and return the first `limit` transactions in txid order (all of
    /// them when fewer remain).
    pub fn drain_for_candidate(&mut self, limit: usize) -> (r: Vec<Transaction>)
        ensures
            sorted_by_txid(old(self)@),
            sorted_by_txid(final(self)@),
            tx_views(r@) == old(self)@.take(if limit < old(self)@.len() { limit as int } else { old(self)@.len() as int }),
            final(self)@ == old(self)@.skip(if limit < old(self)@.len() { limit as int } else { old(self)@.len() as int }),
    {
        proof {
            use_type_invariant(&*self);
        }
        let ghost before = self@;
        if limit == 0 {
            assert(before.skip(0) =~= before);
            let empty: Vec<Transaction> = Vec::new();
            assert(tx_views(empty@) =~= before.take(0));
            return empty;
        }
        let mut txs: Vec<Transaction> = Vec::new();
        std::mem::swap(&mut txs, &mut self.transactions);
        assert(tx_views(txs@) == before);
        let k = if limit < txs.len() { limit } else { txs.len() };
        let rest = txs.split_off(k);
        proof {
            lemma_suffix_keeps_order(before, k as int);
        }
        assert(tx_views(rest@) =~= before.skip(k as int));
        assert(tx_views(txs@) =~= before.take(k as int));
        self.transactions = rest;
        txs
    }

    /// Return the total output value of every transaction in the pool.
    pub fn total_output_value(&self) -> (r: u64)
        requires
            pool_total(self@) <= u64::MAX,
        ensures
            r == pool_total(self@),
            sorted_by_txid(self@),
    {
        proof {
            use_type_invariant(self);
        }
        let ghost vals = self@.map_values(|t: TransactionView| output_total(t.outputs));
        let mut total: u64 = 0;
        let mut i: usize = 0;
        while i < self.transactions.len()
            invariant
                vals == self@.map_values(|t: TransactionView| output_total(t.outputs)),
                self@ == tx_views(self.transactions@),
                nat_sum(vals) <= u64::MAX,
                i <= self.transactions.len(),
                total == nat_sum(vals.take(i as int)),
            decreases self.transactions.len() - i,
        {
            proof {
                lemma_nat_sum_take_step(vals, i as int);
                lemma_nat_sum_take_le(vals, i + 1);
            }
            total = total + self.transactions[i].total_output_value();
            i += 1;
        }
        proof {
            lemma_nat_sum_take_all(vals);
        }
        total
    }
}

impl Clone for Mempool {
    /// A copy of the pool.
    fn clone(&self) -> (r: Self)
        ensures
            r@ == self@,
            sorted_by_txid(self@),
    {
        proof {
            use_type_invariant(self);
        }
        Mempool { transactions: copy_transactions(&self.transactions) }
    }
}

impl Default for Mempool {
    /// An empty mempool.
    fn default() -> (r: Self)
        ensures
            r@ == Seq::<TransactionView>::empty(),
    {
        Mempool::new()
    }
}

/// In a pool sorted by txid, at most one transaction has a given txid.
proof fn lemma_sorted_txids_unique(s: Seq<TransactionView>, i: int, j: int)
    requires
        sorted_by_txid(s),
        0 <= i < s.len(),
        0 <= j < s.len(),
        s[i].txid == s[j].txid,
    ensures
        i == j,
{
    lemma_chars_lt_irreflexive(s[i].txid);
    if i < j {
        assert(chars_lt(s[i].txid, s[j].txid));
    } else if j < i {
        assert(chars_lt(s[j].txid, s[i].txid));
    }
}

/// Adding a transaction to a pool and then removing its txid gives back that
/// transaction and leaves the pool as it was before the addition.
pub proof fn lemma_add_then_remove(
    pool: Seq<TransactionView>,
    tx: TransactionView,
    with_tx: Seq<TransactionView>,
    after: Seq<TransactionView>,
    removed: TransactionView,
)
    requires
        inserted_in_txid_order(pool, tx, with_tx),
        sorted_by_txid(with_tx),
        removed_by_txid(with_tx, tx.txid, after, removed),
    ensures
        after == pool,
        removed == tx,
{
    let p = choose|p: int| {
        &&& 0 <= p <= pool.len()
        &&& with_tx == pool.insert(p, tx)
        &&& forall|i: int| 0 <= i < p ==> chars_lt((#[trigger] pool[i]).txid, tx.txid)
        &&& forall|i: int| p <= i < pool.len() ==> chars_lt(tx.txid, (#[trigger] pool[i]).txid)
    };
    let k = choose|k: int|
        0 <= k < with_tx.len() && with_tx[k] == removed && removed.txid == tx.txid && after == with_tx.remove(k);
    assert(with_tx[p] == tx);
    lemma_sorted_txids_unique(with_tx, k, p);
    assert(after =~= pool);
}

/// Draining a pool splits it: the drained transactions followed by the rest
/// are the pool as it was, in the same order.
pub proof fn lemma_drain_splits_pool(pool: Seq<TransactionView>, k: int)
    requires
        0 <= k <= pool.len(),
    ensures
        pool.take(k) + pool.skip(k) == pool,
{
    assert(pool.take(k) + pool.skip(k) =~= pool);
}

} // verus!
