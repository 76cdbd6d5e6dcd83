//! The mempool: pending transactions by hash, the pending hashes of each sender,
//! and draining by fee weight or by age.
use vstd::prelude::*;
use dashmap::DashMap;
use std::collections::hash_map::RandomState;
use crate::address::Address;
use crate::dag_tables::{
    lists_keys, sender_table, sender_table_get, sender_table_insert, sender_table_new,
    sender_table_remove, tx_table, tx_table_contains, tx_table_get, tx_table_insert, tx_table_keys,
    tx_table_len, tx_table_new, tx_table_remove,
};
use crate::tips::hash_views;
use crate::transaction::{tx_hash_of, weight_view, Transaction, TransactionHash, TxView};

verus! {

broadcast use vstd::seq_lib::group_to_multiset_ensures;

/// The capacity of a default mempool.
pub const DEFAULT_MEMPOOL_SIZE: usize = 100_000;

/// Pending transactions, highest fee weight first when drained by priority.
pub struct Mempool {
    txs: DashMap<TransactionHash, Transaction, RandomState>,
    by_sender: DashMap<String, Vec<TransactionHash>, RandomState>,
    max_size: usize,
    total_fees: u64,
}

/// `s` with `h` added at the end, unless it holds `h` already.
pub open spec fn with_hash(s: Seq<Seq<u8>>, h: Seq<u8>) -> Seq<Seq<u8>> {
    if s.contains(h) {
        s
    } else {
        s.push(h)
    }
}

/// `s` without `h`, in order.
pub open spec fn without(s: Seq<Seq<u8>>, h: Seq<u8>) -> Seq<Seq<u8>> {
    s.filter(|x: Seq<u8>| x != h)
}

/// Whether `batch` is what draining took from `before`, leaving `after`: each
/// drained transaction was pending under a hash that is no longer pending, the
/// pool shrank by the batch, and nothing else changed.
pub open spec fn drained(before: Map<Seq<u8>, TxView>, after: Map<Seq<u8>, TxView>, batch: Seq<Seq<u8>>) -> bool {
    &&& batch.no_duplicates()
    &&& forall|i: int| 0 <= i < batch.len() ==> #[trigger] before.contains_key(batch[i])
    &&& after == before.remove_keys(batch.to_set())
}

impl Mempool {
    /// Pending transactions by hash.
    pub closed spec fn txs_view(&self) -> Map<Seq<u8>, TxView> {
        tx_table(self.txs)
    }

    /// Pending hashes by sender text.
    pub closed spec fn senders_view(&self) -> Map<Seq<char>, Seq<Seq<u8>>> {
        sender_table(self.by_sender)
    }

    /// The capacity.
    pub closed spec fn capacity(&self) -> usize {
        self.max_size
    }

    /// The recorded fee total.
    pub closed spec fn fees(&self) -> u64 {
        self.total_fees
    }

    /// The pool is finite and every pending transaction is stored under its hash.
    pub open spec fn wf(&self) -> bool {
        &&& self.txs_view().dom().finite()
    }

    /// An empty mempool for up to `max_size` transactions.
    pub fn new(max_size: usize) -> (m: Self)
        ensures
            m.wf(),
            m.txs_view().dom().len() == 0,
            m.senders_view().dom().len() == 0,
            m.capacity() == max_size,
            m.fees() == 0,
    {
        Mempool { txs: tx_table_new(), by_sender: sender_table_new(), max_size, total_fees: 0 }
    }

    /// Add a transaction; refused (false) when the pool is full or already holds it.
    pub fn insert(&mut self, tx: Transaction) -> (added: bool)
        requires
            old(self).wf(),
        ensures
            final(self).wf(),
            ({
                let h = tx_hash_of(tx);
                let full = old(self).txs_view().dom().len() >= old(self).capacity();
                let known = old(self).txs_view().contains_key(h);
                let mine = if old(self).senders_view().contains_key(tx.sender@) {
                    old(self).senders_view()[tx.sender@]
                } else {
                    Seq::empty()
                };
                &&& added == (!full && !known)
                &&& !added ==> *final(self) == *old(self)
                &&& added ==> {
                    &&& final(self).txs_view() == old(self).txs_view().insert(h, tx@)
                    &&& final(self).fees() == vstd::wrapping::u64_specs::wrapping_add(old(self).fees(), tx.fee)
                    &&& final(self).senders_view() == old(self).senders_view().insert(tx.sender@, with_hash(mine, h))
                    &&& final(self).capacity() == old(self).capacity()
                }
            }),
    {
        if tx_table_len(&self.txs) >= self.max_size {
            return false;
        }
        let hash = tx.hash();
        if tx_table_contains(&self.txs, &hash) {
            return false;
        }
        self.total_fees = self.total_fees.wrapping_add(tx.fee);
        let mut mine = match sender_table_get(&self.by_sender, tx.sender.as_str()) {
            Some(v) => v,
            None => Vec::new(),
        };
        let ghost before = mine@;
        proof {
            if !old(self).senders_view().contains_key(tx.sender@) {
                assert(hash_views(before) =~= Seq::<Seq<u8>>::empty());
            }
        }
        if !contains_hash(&mine, &hash) {
            mine.push(hash);
        }
        proof {
            assert(hash_views(mine@) =~= with_hash(hash_views(before), hash@));
        }
        sender_table_insert(&mut self.by_sender, String::from_str(tx.sender.as_str()), mine);
        tx_table_insert(&mut self.txs, hash, tx);
        true
    }

    /// Take a transaction out of the pool (and out of its sender's list).
    pub fn remove(&mut self, hash: &TransactionHash) -> (r: Option<Transaction>)
        requires
            old(self).wf(),
        ensures
            final(self).wf(),
            r is Some <==> old(self).txs_view().contains_key(hash@),
            r matches Some(t) ==> t@ == old(self).txs_view()[hash@],
            final(self).txs_view() == old(self).txs_view().remove(hash@),
            r matches Some(t) ==> final(self).fees() == vstd::wrapping::u64_specs::wrapping_sub(
                old(self).fees(),
                t.fee,
            ),
            r is None ==> final(self).fees() == old(self).fees(),
            r is None ==> final(self).senders_view() == old(self).senders_view(),
            r matches Some(t) ==> {
                let s = t.sender@;
                &&& !old(self).senders_view().contains_key(s) ==> final(self).senders_view() == old(
                    self,
                ).senders_view()
                &&& old(self).senders_view().contains_key(s) && without(old(self).senders_view()[s], hash@).len()
                    == 0 ==> final(self).senders_view() == old(self).senders_view().remove(s)
                &&& old(self).senders_view().contains_key(s) && without(old(self).senders_view()[s], hash@).len()
                    > 0 ==> final(self).senders_view() == old(self).senders_view().insert(
                    s,
                    without(old(self).senders_view()[s], hash@),
                )
            },
            final(self).capacity() == old(self).capacity(),
    {
        match tx_table_remove(&mut self.txs, hash) {
            None => None,
            Some(tx) => {
                self.total_fees = self.total_fees.wrapping_sub(tx.fee);
                match sender_table_get(&self.by_sender, tx.sender.as_str()) {
                    None => {},
                    Some(set) => {
                        let rest = remove_hash(&set, hash);
                        if rest.len() == 0 {
                            sender_table_remove(&mut self.by_sender, tx.sender.as_str());
                        } else {
                            sender_table_insert(&mut self.by_sender, String::from_str(tx.sender.as_str()), rest);
                        }
                    },
                }
                Some(tx)
            },
        }
    }

    /// Take up to `count` transactions out of the pool, highest fee weight first:
    /// no transaction left behind outweighs one taken.
    pub fn drain_by_priority(&mut self, count: usize) -> (batch: Vec<Transaction>)
        requires
            old(self).wf(),
        ensures
            final(self).wf(),
            batch@.len() == (if old(self).txs_view().dom().len() <= count {
                old(self).txs_view().dom().len() as int
            } else {
                count as int
            }),
            forall|i: int, j: int| 0 <= i < j < batch@.len() ==> weight_view(#[trigger] batch@[i]@) >= weight_view(
                #[trigger] batch@[j]@,
            ),
            forall|i: int, k: Seq<u8>|
                0 <= i < batch@.len() && #[trigger] final(self).txs_view().contains_key(k) ==> weight_view(
                    #[trigger] batch@[i]@,
                ) >= weight_view(final(self).txs_view()[k]),
            exists|hs: Seq<Seq<u8>>|
                #![trigger drained(old(self).txs_view(), final(self).txs_view(), hs)]
                drained(old(self).txs_view(), final(self).txs_view(), hs) && hs.len() == batch@.len() && forall|i: int|
                    0 <= i < batch@.len() ==> #[trigger] batch@[i]@ == old(self).txs_view()[hs[i]],
            final(self).capacity() == old(self).capacity(),
    {
        let keys = tx_table_keys(&self.txs);
        let mut entries: Vec<(u64, TransactionHash)> = Vec::new();
        let mut i: usize = 0;
        while i < keys.len()
            invariant
                i <= keys@.len(),
                lists_keys(hash_views(keys@), self.txs_view()),
                entries@.len() == i,
                forall|k: int| 0 <= k < i ==> #[trigger] entries@[k].1 == keys@[k] && entries@[k].0 == rank_key(
                    self.txs_view()[keys@[k]@],
                    true,
                ),
            decreases keys@.len() - i,
        {
            proof {
                assert(hash_views(keys@)[i as int] == keys@[i as int]@);
            }
            let w = match tx_table_get(&self.txs, &keys[i]) {
                Some(t) => t.weight(),
                None => {
                    proof {
                        assert(false);
                    }
                    0
                },
            };
            entries.push((w, keys[i]));
            i = i + 1;
        }
        let sorted = sort_pairs(entries, true);
        proof {
            self.lemma_entries_list_pool(keys@, entries@, true);
            lemma_sorted_ranks(entries@, sorted@, self.txs_view(), true);
        }
        let batch = self.take_sorted(sorted, count, true);
        proof {
            assert forall|a: int, b: int| 0 <= a < b < batch@.len() implies weight_view(#[trigger] batch@[a]@) >= weight_view(
                #[trigger] batch@[b]@,
            ) by {
                assert(in_order(rank_key(batch@[a]@, true), rank_key(batch@[b]@, true), true));
            }
            assert forall|a: int, k: Seq<u8>|
                0 <= a < batch@.len() && #[trigger] self.txs_view().contains_key(k) implies weight_view(
                    #[trigger] batch@[a]@,
                ) >= weight_view(self.txs_view()[k]) by {
                assert(in_order(rank_key(batch@[a]@, true), rank_key(self.txs_view()[k], true), true));
            }
        }
        batch
    }

    /// Take up to `count` transactions out of the pool, oldest timestamp first:
    /// no transaction left behind is older than one taken.
    pub fn drain_batch(&mut self, count: usize) -> (batch: Vec<Transaction>)
        requires
            old(self).wf(),
        ensures
            final(self).wf(),
            batch@.len() == (if old(self).txs_view().dom().len() <= count {
                old(self).txs_view().dom().len() as int
            } else {
                count as int
            }),
            forall|i: int, j: int| 0 <= i < j < batch@.len() ==> (#[trigger] batch@[i]).timestamp <= (
            #[trigger] batch@[j]).timestamp,
            forall|i: int, k: Seq<u8>|
                0 <= i < batch@.len() && #[trigger] final(self).txs_view().contains_key(k) ==> (
                #[trigger] batch@[i]).timestamp <= final(self).txs_view()[k].timestamp,
            exists|hs: Seq<Seq<u8>>|
                #![trigger drained(old(self).txs_view(), final(self).txs_view(), hs)]
                drained(old(self).txs_view(), final(self).txs_view(), hs) && hs.len() == batch@.len() && forall|i: int|
                    0 <= i < batch@.len() ==> #[trigger] batch@[i]@ == old(self).txs_view()[hs[i]],
            final(self).capacity() == old(self).capacity(),
    {
        let keys = tx_table_keys(&self.txs);
        let mut entries: Vec<(u64, TransactionHash)> = Vec::new();
        let mut i: usize = 0;
        while i < keys.len()
            invariant
                i <= keys@.len(),
                lists_keys(hash_views(keys@), self.txs_view()),
                entries@.len() == i,
                forall|k: int| 0 <= k < i ==> #[trigger] entries@[k].1 == keys@[k] && entries@[k].0 == rank_key(
                    self.txs_view()[keys@[k]@],
                    false,
                ),
            decreases keys@.len() - i,
        {
            proof {
                assert(hash_views(keys@)[i as int] == keys@[i as int]@);
            }
            let ts = match tx_table_get(&self.txs, &keys[i]) {
                Some(t) => t.timestamp,
                None => {
                    proof {
                        assert(false);
                    }
                    0
                },
            };
            entries.push((ts, keys[i]));
            i = i + 1;
        }
        let sorted = sort_pairs(entries, false);
        proof {
            self.lemma_entries_list_pool(keys@, entries@, false);
            lemma_sorted_ranks(entries@, sorted@, self.txs_view(), false);
        }
        let batch = self.take_sorted(sorted, count, false);
        proof {
            assert forall|a: int, b: int| 0 <= a < b < batch@.len() implies (#[trigger] batch@[a]).timestamp <= (
            #[trigger] batch@[b]).timestamp by {
                assert(in_order(rank_key(batch@[a]@, false), rank_key(batch@[b]@, false), false));
            }
            assert forall|a: int, k: Seq<u8>|
                0 <= a < batch@.len() && #[trigger] self.txs_view().contains_key(k) implies (
                #[trigger] batch@[a]).timestamp <= self.txs_view()[k].timestamp by {
                assert(in_order(rank_key(batch@[a]@, false), rank_key(self.txs_view()[k], false), false));
            }
        }
        batch
    }

    /// Remove the first `count` ranked transactions (all, when fewer) and return them.
    fn take_sorted(&mut self, sorted: Vec<(u64, TransactionHash)>, count: usize, by_weight: bool) -> (batch: Vec<
        Transaction,
    >)
        requires
            old(self).wf(),
            ranks(sorted@, old(self).txs_view(), by_weight),
        ensures
            final(self).wf(),
            batch@.len() == (if sorted@.len() <= count { sorted@.len() as int } else { count as int }),
            forall|i: int, j: int| 0 <= i < j < batch@.len() ==> in_order(
                rank_key(#[trigger] batch@[i]@, by_weight),
                rank_key(#[trigger] batch@[j]@, by_weight),
                by_weight,
            ),
            forall|i: int, k: Seq<u8>|
                0 <= i < batch@.len() && #[trigger] final(self).txs_view().contains_key(k) ==> in_order(
                    rank_key(#[trigger] batch@[i]@, by_weight),
                    rank_key(final(self).txs_view()[k], by_weight),
                    by_weight,
                ),
            exists|hs: Seq<Seq<u8>>|
                #![trigger drained(old(self).txs_view(), final(self).txs_view(), hs)]
                drained(old(self).txs_view(), final(self).txs_view(), hs) && hs.len() == batch@.len() && forall|i: int|
                    0 <= i < batch@.len() ==> #[trigger] batch@[i]@ == old(self).txs_view()[hs[i]],
            final(self).capacity() == old(self).capacity(),
    {
        let n = if sorted.len() <= count { sorted.len() } else { count };
        let ghost m0 = self.txs_view();
        let ghost hs = sorted@.map_values(|e: (u64, TransactionHash)| e.1@);
        let mut batch: Vec<Transaction> = Vec::new();
        let mut i: usize = 0;
        while i < n
            invariant
                n <= sorted@.len(),
                i <= n,
                self.wf(),
                m0 == old(self).txs_view(),
                self.max_size == old(self).max_size,
                ranks(sorted@, m0, by_weight),
                hs == sorted@.map_values(|e: (u64, TransactionHash)| e.1@),
                self.txs_view() == m0.remove_keys(hs.take(i as int).to_set()),
                batch@.len() == i,
                forall|j: int| 0 <= j < i ==> #[trigger] batch@[j]@ == m0[hs[j]],
            decreases n - i,
        {
            let ghost before = self.txs_view();
            proof {
                assert(hs[i as int] == sorted@[i as int].1@);
                assert(m0.contains_key(hs[i as int]));
                assert(!hs.take(i as int).to_set().contains(hs[i as int])) by {
                    if hs.take(i as int).contains(hs[i as int]) {
                        let j = choose|j: int| 0 <= j < i && hs.take(i as int)[j] == hs[i as int];
                        assert(sorted@[j].1@ != sorted@[i as int].1@);
                    }
                }
            }
            match self.remove(&sorted[i].1) {
                Some(t) => {
                    batch.push(t);
                },
                None => {
                    proof {
                        assert(false);
                    }
                },
            }
            proof {
                crate::keyorder::lemma_push_to_set(hs.take(i as int), hs[i as int]);
                assert(hs.take(i + 1) =~= hs.take(i as int).push(hs[i as int]));
                assert(self.txs_view() =~= m0.remove_keys(hs.take(i + 1).to_set()));
            }
            i = i + 1;
        }
        proof {
            let taken = hs.take(n as int);
            assert(taken.no_duplicates()) by {
                assert forall|a: int, b: int| 0 <= a < taken.len() && 0 <= b < taken.len() && a != b implies taken[a]
                    != taken[b] by {
                    if a < b {
                        assert(sorted@[a].1@ != sorted@[b].1@);
                    } else {
                        assert(sorted@[b].1@ != sorted@[a].1@);
                    }
                }
            }
            assert(drained(m0, self.txs_view(), taken));
            assert forall|a: int| 0 <= a < batch@.len() implies #[trigger] batch@[a]@ == m0[taken[a]] by {}
            assert forall|a: int, b: int| 0 <= a < b < batch@.len() implies in_order(
                rank_key(#[trigger] batch@[a]@, by_weight),
                rank_key(#[trigger] batch@[b]@, by_weight),
                by_weight,
            ) by {
                assert(m0.contains_key(sorted@[a].1@));
                assert(m0.contains_key(sorted@[b].1@));
                assert(hs[a] == sorted@[a].1@ && hs[b] == sorted@[b].1@);
                assert(in_order(sorted@[a].0, sorted@[b].0, by_weight));
            }
            assert forall|a: int, k: Seq<u8>|
                0 <= a < batch@.len() && #[trigger] self.txs_view().contains_key(k) implies in_order(
                rank_key(#[trigger] batch@[a]@, by_weight),
                rank_key(self.txs_view()[k], by_weight),
                by_weight,
            ) by {
                assert(m0.contains_key(k));
                let j = choose|j: int| 0 <= j < sorted@.len() && sorted@[j].1@ == k;
                if j < n {
                    assert(taken[j] == k);
                    assert(taken.to_set().contains(k));
                }
                assert(j >= a);
                assert(m0.contains_key(sorted@[a].1@));
                assert(m0.contains_key(sorted@[j].1@));
                assert(hs[a] == sorted@[a].1@);
                if j > a {
                    assert(in_order(sorted@[a].0, sorted@[j].0, by_weight));
                }
            }
        }
        batch
    }

    proof fn lemma_entries_list_pool(&self, keys: Seq<TransactionHash>, entries: Seq<(u64, TransactionHash)>, by_weight: bool)
        requires
            lists_keys(hash_views(keys), self.txs_view()),
            entries.len() == keys.len(),
            forall|k: int| 0 <= k < keys.len() ==> #[trigger] entries[k].1 == keys[k] && entries[k].0 == rank_key(
                self.txs_view()[keys[k]@],
                by_weight,
            ),
        ensures
            self.txs_view().dom().finite(),
            entries.len() == self.txs_view().dom().len(),
            forall|i: int| 0 <= i < entries.len() ==> #[trigger] self.txs_view().contains_key(entries[i].1@)
                && entries[i].0 == rank_key(self.txs_view()[entries[i].1@], by_weight),
            forall|i: int, j: int| 0 <= i < j < entries.len() ==> #[trigger] entries[i].1@ != #[trigger] entries[j].1@,
            forall|k: Seq<u8>| #[trigger] self.txs_view().contains_key(k) ==> exists|i: int| 0 <= i < entries.len() && entries[i].1@ == k,
    {
        let m = self.txs_view();
        let hv = hash_views(keys);
        assert forall|i: int| 0 <= i < entries.len() implies #[trigger] m.contains_key(entries[i].1@) && entries[i].0
            == rank_key(m[entries[i].1@], by_weight) by {
            assert(hv[i] == keys[i]@);
            assert(entries[i].1 == keys[i]);
        }
        assert forall|i: int, j: int| 0 <= i < j < entries.len() implies #[trigger] entries[i].1@ != #[trigger] entries[j].1@ by {
            assert(hv[i] == keys[i]@ && hv[j] == keys[j]@);
            assert(entries[i].1 == keys[i] && entries[j].1 == keys[j]);
            assert(hv[i] != hv[j]);
        }
        assert forall|k: Seq<u8>| #[trigger] m.contains_key(k) implies exists|i: int| 0 <= i < entries.len() && entries[i].1@ == k by {
            let i = choose|i: int| 0 <= i < hv.len() && hv[i] == k;
            assert(entries[i].1 == keys[i]);
        }
    }

    /// The pending transactions of a sender: its recorded hashes in order, those
    /// still pending, each as the transaction it names.
    pub fn get_pending_for_address(&self, addr: &Address) -> (v: Vec<Transaction>)
        ensures
            forall|i: int| 0 <= i < v@.len() ==> is_pending(self.txs_view(), #[trigger] v@[i]@),
            v@.map_values(|t: Transaction| t@) == (if self.senders_view().contains_key(addr@) {
                pending_listing(self.txs_view(), self.senders_view()[addr@])
            } else {
                Seq::<TxView>::empty()
            }),
    {
        let mut out: Vec<Transaction> = Vec::new();
        match sender_table_get(&self.by_sender, addr.as_str()) {
            None => {
                assert(out@.map_values(|t: Transaction| t@) =~= Seq::<TxView>::empty());
            },
            Some(hashes) => {
                let ghost hv = hashes@.map_values(|h: TransactionHash| h@);
                let mut i: usize = 0;
                while i < hashes.len()
                    invariant
                        i <= hashes@.len(),
                        hv == hashes@.map_values(|h: TransactionHash| h@),
                        forall|j: int| 0 <= j < out@.len() ==> is_pending(self.txs_view(), #[trigger] out@[j]@),
                        out@.map_values(|t: Transaction| t@) == pending_listing(self.txs_view(), hv.take(i as int)),
                    decreases hashes@.len() - i,
                {
                    proof {
                        assert(hv.take(i + 1).drop_last() =~= hv.take(i as int));
                        assert(hv.take(i + 1).last() == hashes@[i as int]@);
                    }
                    let ghost before = out@;
                    match tx_table_get(&self.txs, &hashes[i]) {
                        Some(t) => {
                            proof {
                                assert(self.txs_view().contains_key(hashes@[i as int]@));
                            }
                            out.push(t);
                            proof {
                                assert(out@.map_values(|t: Transaction| t@) =~= before.map_values(
                                    |t: Transaction| t@,
                                ).push(t@));
                            }
                        },
                        None => {},
                    }
                    i = i + 1;
                }
                proof {
                    assert(hv.take(hashes@.len() as int) =~= hv);
                }
            },
        }
        out
    }

    /// Whether the sender of `tx` has a pending transaction with the same nonce.
    pub fn has_conflict(&self, tx: &Transaction) -> (b: bool)
        ensures
            b == (self.senders_view().contains_key(tx.sender@) && exists|i: int|
                0 <= i < self.senders_view()[tx.sender@].len() && #[trigger] self.txs_view().contains_key(
                    self.senders_view()[tx.sender@][i],
                ) && self.txs_view()[self.senders_view()[tx.sender@][i]].nonce == tx.nonce),
    {
        match sender_table_get(&self.by_sender, tx.sender.as_str()) {
            None => false,
            Some(hashes) => {
                let mut i: usize = 0;
                while i < hashes.len()
                    invariant
                        i <= hashes@.len(),
                        self.senders_view().contains_key(tx.sender@),
                        hash_views(hashes@) == self.senders_view()[tx.sender@],
                        forall|j: int| 0 <= j < i ==> !(#[trigger] self.txs_view().contains_key(
                            self.senders_view()[tx.sender@][j],
                        ) && self.txs_view()[self.senders_view()[tx.sender@][j]].nonce == tx.nonce),
                    decreases hashes@.len() - i,
                {
                    proof {
                        assert(self.senders_view()[tx.sender@][i as int] == hashes@[i as int]@);
                    }
                    match tx_table_get(&self.txs, &hashes[i]) {
                        Some(t) => {
                            if t.nonce == tx.nonce {
                                return true;
                            }
                        },
                        None => {},
                    }
                    i = i + 1;
                }
                proof {
                    assert(hashes@.len() == self.senders_view()[tx.sender@].len());
                }
                false
            },
        }
    }

    /// Whether a transaction is pending.
    pub fn contains(&self, hash: &TransactionHash) -> (b: bool)
        ensures
            b == self.txs_view().contains_key(hash@),
    {
        tx_table_contains(&self.txs, hash)
    }

    /// The number of pending transactions.
    pub fn len(&self) -> (n: usize)
        ensures
            n == self.txs_view().dom().len(),
    {
        tx_table_len(&self.txs)
    }

    /// Whether nothing is pending.
    pub fn is_empty(&self) -> (b: bool)
        ensures
            b == (self.txs_view().dom().len() == 0),
    {
        tx_table_len(&self.txs) == 0
    }

    /// A copy of a pending transaction.
    pub fn get(&self, hash: &TransactionHash) -> (r: Option<Transaction>)
        ensures
            r is Some <==> self.txs_view().contains_key(hash@),
            r matches Some(t) ==> t@ == self.txs_view()[hash@],
    {
        tx_table_get(&self.txs, hash)
    }

    /// The recorded total of the pending fees.
    pub fn total_fees(&self) -> (f: u64)
        ensures
            f == self.fees(),
    {
        self.total_fees
    }

    /// An estimate of the memory used: 500 bytes per pending transaction.
    pub fn size_bytes(&self) -> (n: usize)
        requires
            self.txs_view().dom().len() * 500 <= usize::MAX,
        ensures
            n == self.txs_view().dom().len() * 500,
    {
        tx_table_len(&self.txs) * 500
    }
}

impl Default for Mempool {
    fn default() -> (m: Self)
        ensures
            m.wf(),
            m.capacity() == DEFAULT_MEMPOOL_SIZE,
    {
        Self::new(DEFAULT_MEMPOOL_SIZE)
    }
}

/// The transactions a list of hashes names that are still pending, in list order.
pub open spec fn pending_listing(txs: Map<Seq<u8>, TxView>, hashes: Seq<Seq<u8>>) -> Seq<TxView>
    decreases hashes.len(),
{
    if hashes.len() == 0 {
        Seq::empty()
    } else {
        let rest = pending_listing(txs, hashes.drop_last());
        if txs.contains_key(hashes.last()) {
            rest.push(txs[hashes.last()])
        } else {
            rest
        }
    }
}

/// Whether a transaction is pending under some hash.
pub open spec fn is_pending(m: Map<Seq<u8>, TxView>, v: TxView) -> bool {
    exists|h: Seq<u8>| #[trigger] m.contains_key(h) && m[h] == v
}

/// `a` may come before `b`: not smaller when descending, not larger when ascending.
pub open spec fn in_order(a: u64, b: u64, descending: bool) -> bool {
    if descending {
        a >= b
    } else {
        a <= b
    }
}

/// The ranking key of a pending transaction: its weight, or its timestamp.
pub open spec fn rank_key(v: TxView, by_weight: bool) -> u64 {
    if by_weight {
        weight_view(v)
    } else {
        v.timestamp
    }
}

/// Whether `s` ranks every pending transaction of `m` once, in order: highest
/// weight first, or oldest first.
pub open spec fn ranks(s: Seq<(u64, TransactionHash)>, m: Map<Seq<u8>, TxView>, by_weight: bool) -> bool {
    &&& m.dom().finite()
    &&& s.len() == m.dom().len()
    &&& forall|i: int| 0 <= i < s.len() ==> #[trigger] m.contains_key(s[i].1@) && s[i].0 == rank_key(m[s[i].1@], by_weight)
    &&& forall|i: int, j: int| 0 <= i < j < s.len() ==> #[trigger] s[i].1@ != #[trigger] s[j].1@
    &&& forall|k: Seq<u8>| #[trigger] m.contains_key(k) ==> exists|i: int| 0 <= i < s.len() && s[i].1@ == k
    &&& forall|i: int, j: int| 0 <= i < j < s.len() ==> in_order(#[trigger] s[i].0, #[trigger] s[j].0, by_weight)
}

fn goes_before(a: u64, b: u64, descending: bool) -> (r: bool)
    ensures
        r == in_order(a, b, descending),
{
    if descending {
        a >= b
    } else {
        a <= b
    }
}

/// Sort (key, hash) pairs by key (insertion sort), descending or ascending.
fn sort_pairs(v: Vec<(u64, TransactionHash)>, descending: bool) -> (out: Vec<(u64, TransactionHash)>)
    ensures
        out@.to_multiset() == v@.to_multiset(),
        forall|i: int, j: int| 0 <= i < j < out@.len() ==> in_order(#[trigger] out@[i].0, #[trigger] out@[j].0, descending),
{
    broadcast use vstd::seq_lib::group_to_multiset_ensures;
    let ghost orig = v@;
    let mut rest = v;
    let mut out: Vec<(u64, TransactionHash)> = Vec::new();
    while rest.len() > 0
        invariant
            out@.to_multiset().add(rest@.to_multiset()) == orig.to_multiset(),
            forall|i: int, j: int| 0 <= i < j < out@.len() ==> in_order(#[trigger] out@[i].0, #[trigger] out@[j].0, descending),
        decreases rest@.len(),
    {
        let ghost before = rest@;
        let e = rest.pop().unwrap();
        assert(before =~= rest@.push(e));
        let mut idx: usize = 0;
        while idx < out.len() && !goes_before(e.0, out[idx].0, descending)
            invariant
                idx <= out@.len(),
                forall|i: int, j: int| 0 <= i < j < out@.len() ==> in_order(#[trigger] out@[i].0, #[trigger] out@[j].0, descending),
                forall|j: int| 0 <= j < idx ==> in_order(#[trigger] out@[j].0, e.0, descending),
            decreases out@.len() - idx,
        {
            idx = idx + 1;
        }
        let ghost old_out = out@;
        out.insert(idx, e);
        proof {
            assert forall|i: int, j: int| 0 <= i < j < out@.len() implies in_order(#[trigger] out@[i].0, #[trigger] out@[j].0, descending) by {
                if j < idx {
                    assert(out@[i] == old_out[i] && out@[j] == old_out[j]);
                } else if j == idx {
                    assert(out@[i] == old_out[i]);
                } else if i < idx {
                    assert(out@[i] == old_out[i] && out@[j] == old_out[j - 1]);
                } else if i == idx {
                    assert(out@[j] == old_out[j - 1]);
                    if idx < old_out.len() && j - 1 > idx {
                        assert(in_order(old_out[idx as int].0, old_out[j - 1].0, descending));
                    }
                } else {
                    assert(out@[i] == old_out[i - 1] && out@[j] == old_out[j - 1]);
                }
            }
            assert(out@.to_multiset() == old_out.to_multiset().insert(e));
            assert(before.to_multiset() == rest@.to_multiset().insert(e));
            assert(out@.to_multiset().add(rest@.to_multiset()) =~= old_out.to_multiset().add(before.to_multiset()));
        }
    }
    proof {
        assert(rest@.to_multiset() =~= vstd::multiset::Multiset::empty());
        assert(out@.to_multiset().add(rest@.to_multiset()) =~= out@.to_multiset());
    }
    out
}

/// Sorting a ranked listing of the pool's hashes gives a ranking.
proof fn lemma_sorted_ranks(
    entries: Seq<(u64, TransactionHash)>,
    sorted: Seq<(u64, TransactionHash)>,
    m: Map<Seq<u8>, TxView>,
    by_weight: bool,
)
    requires
        m.dom().finite(),
        entries.len() == m.dom().len(),
        forall|i: int| 0 <= i < entries.len() ==> #[trigger] m.contains_key(entries[i].1@) && entries[i].0 == rank_key(m[entries[i].1@], by_weight),
        forall|i: int, j: int| 0 <= i < j < entries.len() ==> #[trigger] entries[i].1@ != #[trigger] entries[j].1@,
        forall|k: Seq<u8>| #[trigger] m.contains_key(k) ==> exists|i: int| 0 <= i < entries.len() && entries[i].1@ == k,
        sorted.to_multiset() == entries.to_multiset(),
        forall|i: int, j: int| 0 <= i < j < sorted.len() ==> in_order(#[trigger] sorted[i].0, #[trigger] sorted[j].0, by_weight),
    ensures
        ranks(sorted, m, by_weight),
{
    broadcast use vstd::seq_lib::group_to_multiset_ensures;
    vstd::seq_lib::to_multiset_len(sorted);
    vstd::seq_lib::to_multiset_len(entries);
    assert forall|i: int| 0 <= i < sorted.len() implies #[trigger] entries.contains(sorted[i]) by {
        assert(sorted.to_multiset().contains(sorted[i]));
    }
    assert(entries.no_duplicates()) by {
        assert forall|i: int, j: int| 0 <= i < entries.len() && 0 <= j < entries.len() && i != j implies entries[i]
            != entries[j] by {
            if i < j {
                assert(entries[i].1@ != entries[j].1@);
            } else {
                assert(entries[j].1@ != entries[i].1@);
            }
        }
    }
    entries.lemma_multiset_has_no_duplicates();
    assert forall|i: int| 0 <= i < sorted.len() implies #[trigger] m.contains_key(sorted[i].1@) && sorted[i].0
        == rank_key(m[sorted[i].1@], by_weight) by {
        assert(entries.contains(sorted[i]));
        let p = choose|p: int| 0 <= p < entries.len() && entries[p] == sorted[i];
        assert(m.contains_key(entries[p].1@));
    }
    assert forall|i: int, j: int| 0 <= i < j < sorted.len() implies #[trigger] sorted[i].1@ != #[trigger] sorted[j].1@ by {
        if sorted[i].1@ == sorted[j].1@ {
            assert(entries.contains(sorted[i]));
            assert(entries.contains(sorted[j]));
            let p = choose|p: int| 0 <= p < entries.len() && entries[p] == sorted[i];
            let q = choose|q: int| 0 <= q < entries.len() && entries[q] == sorted[j];
            if p != q {
                if p < q {
                    assert(entries[p].1@ != entries[q].1@);
                } else {
                    assert(entries[q].1@ != entries[p].1@);
                }
            }
            assert(sorted[i] == sorted[j]);
            let s1 = sorted.remove(j);
            assert(s1[i] == sorted[i]);
            assert(s1.to_multiset().contains(sorted[i]));
            assert(s1.to_multiset() == sorted.to_multiset().remove(sorted[j]));
            assert(entries.to_multiset().count(sorted[i]) >= 2);
            assert(entries.to_multiset().contains(sorted[i]));
        }
    }
    assert forall|k: Seq<u8>| #[trigger] m.contains_key(k) implies exists|i: int| 0 <= i < sorted.len() && sorted[i].1@ == k by {
        let p = choose|p: int| 0 <= p < entries.len() && entries[p].1@ == k;
        assert(entries.to_multiset().contains(entries[p]));
        assert(sorted.to_multiset().contains(entries[p]));
        let i = choose|i: int| 0 <= i < sorted.len() && sorted[i] == entries[p];
        assert(sorted[i].1@ == k);
    }
}

pub(crate) fn contains_hash(v: &Vec<TransactionHash>, h: &TransactionHash) -> (b: bool)
    ensures
        b == hash_views(v@).contains(h@),
{
    let mut i: usize = 0;
    while i < v.len()
        invariant
            i <= v@.len(),
            forall|j: int| 0 <= j < i ==> v@[j]@ != h@,
        decreases v@.len() - i,
    {
        if v[i].same(h) {
            assert(hash_views(v@)[i as int] == h@);
            return true;
        }
        i = i + 1;
    }
    proof {
        if hash_views(v@).contains(h@) {
            let j = choose|j: int| 0 <= j < hash_views(v@).len() && hash_views(v@)[j] == h@;
            assert(v@[j]@ == h@);
        }
    }
    false
}

fn remove_hash(v: &Vec<TransactionHash>, h: &TransactionHash) -> (r: Vec<TransactionHash>)
    ensures
        hash_views(r@) == without(hash_views(v@), h@),
{
    let mut r: Vec<TransactionHash> = Vec::new();
    let mut i: usize = 0;
    while i < v.len()
        invariant
            i <= v@.len(),
            hash_views(r@) == without(hash_views(v@).take(i as int), h@),
        decreases v@.len() - i,
    {
        proof {
            reveal_with_fuel(Seq::filter, 1);
            assert(hash_views(v@).take(i + 1).drop_last() =~= hash_views(v@).take(i as int));
            assert(hash_views(v@).take(i + 1).last() == v@[i as int]@);
        }
        let ghost before = r@;
        if !v[i].same(h) {
            r.push(v[i]);
            proof {
                assert(hash_views(r@) =~= hash_views(before).push(v@[i as int]@));
            }
        }
        i = i + 1;
    }
    assert(hash_views(v@).take(v@.len() as int) =~= hash_views(v@));
    r
}

/// Removing a transaction that was just added gives back the pool as it was
/// before: the pool after `insert` added `tx` (absent before) and then
/// `remove` took its hash holds what the first pool held.
pub proof fn law_insert_then_remove(a: Mempool, b: Mempool, c: Mempool, tx: Transaction)
    requires
        !a.txs_view().contains_key(tx_hash_of(tx)),
        b.txs_view() == a.txs_view().insert(tx_hash_of(tx), tx@),
        c.txs_view() == b.txs_view().remove(tx_hash_of(tx)),
    ensures
        c.txs_view() == a.txs_view(),
{
    assert(c.txs_view() =~= a.txs_view());
}

} // verus!
