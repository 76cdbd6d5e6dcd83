//! Conflict detection: nonce collisions, overspending, and conflict sets between
//! transactions.
use vstd::prelude::*;
use dashmap::DashMap;
use std::collections::hash_map::RandomState;
use crate::address::Address;
use crate::dag_tables::{
    conflict_table, conflict_table_get, conflict_table_insert, conflict_table_len, conflict_table_new,
    conflict_table_remove, hash_numbers, hash_numbers_get, hash_numbers_insert, hash_numbers_new,
    hash_numbers_remove, nonce_table, nonce_table_get, nonce_table_insert, nonce_table_new,
    nonce_table_remove,
};
use crate::transaction::{tx_hash_of, Transaction, TransactionHash};

verus! {

/// Result of checking a transaction for conflicts.
#[derive(Debug, Clone)]
pub enum ConflictResult {
    /// No conflict detected.
    NoConflict,
    /// The sender already committed a transaction with this nonce.
    NonceConflict { existing_hash: TransactionHash, sender: Address, nonce: u64 },
    /// The spend exceeds what is available.
    DoubleSpend { sender: Address, attempted_total: u64, available: u64 },
}

/// `a + b` saturated at `u64::MAX`.
pub open spec fn sat_add(a: int, b: int) -> int {
    if a + b > u64::MAX {
        u64::MAX as int
    } else {
        a + b
    }
}

/// Tracks committed (sender, nonce) pairs and sets of conflicting transactions.
pub struct ConflictDetector {
    committed_nonces: DashMap<(String, u64), TransactionHash, RandomState>,
    conflicts: DashMap<u64, Vec<TransactionHash>, RandomState>,
    tx_to_conflict: DashMap<TransactionHash, u64, RandomState>,
    next_conflict_id: u64,
}

impl ConflictDetector {
    /// Committed transaction hashes by (sender text, nonce).
    pub closed spec fn committed(&self) -> Map<(Seq<char>, u64), Seq<u8>> {
        nonce_table(self.committed_nonces)
    }

    /// Conflict sets by id.
    pub closed spec fn conflict_sets(&self) -> Map<u64, Seq<TransactionHash>> {
        conflict_table(self.conflicts)
    }

    /// The conflict id of each transaction in a conflict.
    pub closed spec fn membership(&self) -> Map<Seq<u8>, u64> {
        hash_numbers(self.tx_to_conflict)
    }

    /// The id the next conflict gets.
    pub closed spec fn next_id(&self) -> u64 {
        self.next_conflict_id
    }

    /// No conflict set lists a transaction twice: each set is a set.
    pub open spec fn sets_distinct(&self) -> bool {
        forall|id: u64|
            #[trigger] self.conflict_sets().contains_key(id) ==> self.conflict_sets()[id].map_values(
                |h: TransactionHash| h@,
            ).no_duplicates()
    }

    /// A detector with nothing committed and no conflicts.
    pub fn new() -> (d: Self)
        ensures
            d.committed().dom().len() == 0 && d.committed().dom().finite(),
            d.conflict_sets().dom().len() == 0 && d.conflict_sets().dom().finite(),
            d.membership().dom().len() == 0 && d.membership().dom().finite(),
            d.next_id() == 1,
            d.sets_distinct(),
    {
        ConflictDetector {
            committed_nonces: nonce_table_new(),
            conflicts: conflict_table_new(),
            tx_to_conflict: hash_numbers_new(),
            next_conflict_id: 1,
        }
    }

    /// Check a transaction against the committed nonces, then against the balance:
    /// a nonce already committed by the sender is a nonce conflict; otherwise a
    /// spend (pending + amount + fee, saturating) above the balance is a double spend.
    pub fn check_transaction(&self, tx: &Transaction, available_balance: u64, pending_spend: u64) -> (r:
        ConflictResult)
        ensures
            self.committed().contains_key((tx.sender@, tx.nonce)) ==> (r matches ConflictResult::NonceConflict {
                existing_hash,
                sender,
                nonce,
            } && existing_hash@ == self.committed()[(tx.sender@, tx.nonce)] && sender@ == tx.sender@
                && nonce == tx.nonce),
            !self.committed().contains_key((tx.sender@, tx.nonce)) && sat_add(
                sat_add(pending_spend as int, tx.amount as int),
                tx.fee as int,
            ) > available_balance ==> (r matches ConflictResult::DoubleSpend {
                sender,
                attempted_total,
                available,
            } && sender@ == tx.sender@ && attempted_total == sat_add(
                sat_add(pending_spend as int, tx.amount as int),
                tx.fee as int,
            ) && available == available_balance),
            !self.committed().contains_key((tx.sender@, tx.nonce)) && sat_add(
                sat_add(pending_spend as int, tx.amount as int),
                tx.fee as int,
            ) <= available_balance ==> r is NoConflict,
    {
        let key = (String::from_str(tx.sender.as_str()), tx.nonce);
        match nonce_table_get(&self.committed_nonces, &key) {
            Some(existing) => {
                return ConflictResult::NonceConflict {
                    existing_hash: existing,
                    sender: tx.sender.clone(),
                    nonce: tx.nonce,
                };
            },
            None => {},
        }
        let total_needed = pending_spend.saturating_add(tx.amount).saturating_add(tx.fee);
        if total_needed > available_balance {
            return ConflictResult::DoubleSpend {
                sender: tx.sender.clone(),
                attempted_total: total_needed,
                available: available_balance,
            };
        }
        ConflictResult::NoConflict
    }

    /// Record a transaction's (sender, nonce) as committed, with its hash.
    pub fn commit_transaction(&mut self, tx: &Transaction)
        ensures
            final(self).committed() == old(self).committed().insert((tx.sender@, tx.nonce), tx_hash_of(*tx)),
            final(self).conflict_sets() == old(self).conflict_sets(),
            final(self).membership() == old(self).membership(),
            final(self).next_id() == old(self).next_id(),
    {
        let hash = tx.hash();
        let key = (String::from_str(tx.sender.as_str()), tx.nonce);
        nonce_table_insert(&mut self.committed_nonces, key, hash);
    }

    /// Forget a transaction's committed (sender, nonce).
    pub fn revert_transaction(&mut self, tx: &Transaction)
        ensures
            final(self).committed() == old(self).committed().remove((tx.sender@, tx.nonce)),
            final(self).conflict_sets() == old(self).conflict_sets(),
            final(self).membership() == old(self).membership(),
            final(self).next_id() == old(self).next_id(),
    {
        let key = (String::from_str(tx.sender.as_str()), tx.nonce);
        nonce_table_remove(&mut self.committed_nonces, &key);
    }

    /// Register a conflict between two transactions under a fresh id.
    pub fn register_conflict(&mut self, hash_a: TransactionHash, hash_b: TransactionHash)
        ensures
            final(self).next_id() == vstd::wrapping::u64_specs::wrapping_add(old(self).next_id(), 1),
            final(self).conflict_sets() == old(self).conflict_sets().insert(
                old(self).next_id(),
                if hash_a@ == hash_b@ { seq![hash_a] } else { seq![hash_a, hash_b] },
            ),
            final(self).membership() == old(self).membership().insert(hash_a@, old(self).next_id()).insert(
                hash_b@,
                old(self).next_id(),
            ),
            final(self).committed() == old(self).committed(),
            old(self).sets_distinct() ==> final(self).sets_distinct(),
    {
        let conflict_id = self.next_conflict_id;
        self.next_conflict_id = self.next_conflict_id.wrapping_add(1);
        let mut set: Vec<TransactionHash> = Vec::new();
        set.push(hash_a);
        if !hash_a.same(&hash_b) {
            set.push(hash_b);
        }
        conflict_table_insert(&mut self.conflicts, conflict_id, set);
        hash_numbers_insert(&mut self.tx_to_conflict, hash_a, conflict_id);
        hash_numbers_insert(&mut self.tx_to_conflict, hash_b, conflict_id);
        proof {
            assert(set@ =~= if hash_a@ == hash_b@ { seq![hash_a] } else { seq![hash_a, hash_b] });
            let sv = set@.map_values(|h: TransactionHash| h@);
            assert(sv.no_duplicates()) by {
                if hash_a@ != hash_b@ {
                    assert(sv[0] == hash_a@ && sv[1] == hash_b@);
                }
            }
            if old(self).sets_distinct() {
                assert forall|id: u64| #[trigger] self.conflict_sets().contains_key(id) implies self.conflict_sets()[
                    id
                ].map_values(|h: TransactionHash| h@).no_duplicates() by {
                    if id != conflict_id {
                        assert(old(self).conflict_sets().contains_key(id));
                    }
                }
            }
        }
    }

    /// Whether a transaction is part of a conflict.
    pub fn is_conflicting(&self, hash: &TransactionHash) -> (b: bool)
        ensures
            b == self.membership().contains_key(hash@),
    {
        hash_numbers_get(&self.tx_to_conflict, hash).is_some()
    }

    /// The transactions in the same conflict set as `hash`, if it is in one.
    pub fn get_conflict_set(&self, hash: &TransactionHash) -> (r: Option<Vec<TransactionHash>>)
        ensures
            !self.membership().contains_key(hash@) ==> r is None,
            self.membership().contains_key(hash@) ==> {
                let id = self.membership()[hash@];
                &&& r is Some <==> self.conflict_sets().contains_key(id)
                &&& r matches Some(v) ==> v@ == self.conflict_sets()[id]
            },
    {
        match hash_numbers_get(&self.tx_to_conflict, hash) {
            None => None,
            Some(cid) => conflict_table_get(&self.conflicts, cid),
        }
    }

    /// Resolve the conflict of `accepted`: its set is dropped, every member leaves
    /// the membership table, and the other members are returned as rejected.
    pub fn resolve_conflict(&mut self, accepted: &TransactionHash) -> (rejected: Vec<TransactionHash>)
        ensures
            ({
                let id = old(self).membership()[accepted@];
                let resolvable = old(self).membership().contains_key(accepted@)
                    && old(self).conflict_sets().contains_key(id);
                &&& !resolvable ==> rejected@.len() == 0 && final(self).conflict_sets() == old(
                    self,
                ).conflict_sets() && final(self).membership() == old(self).membership()
                &&& resolvable ==> {
                    let set = old(self).conflict_sets()[id];
                    &&& rejected@ == set.filter(|h: TransactionHash| h@ != accepted@)
                    &&& final(self).conflict_sets() == old(self).conflict_sets().remove(id)
                    &&& final(self).membership() == old(self).membership().remove(accepted@).remove_keys(
                        rejected@.map_values(|h: TransactionHash| h@).to_set(),
                    )
                }
            }),
            final(self).committed() == old(self).committed(),
            final(self).next_id() == old(self).next_id(),
            old(self).sets_distinct() ==> final(self).sets_distinct(),
    {
        let cid = match hash_numbers_get(&self.tx_to_conflict, accepted) {
            None => return Vec::new(),
            Some(c) => c,
        };
        let set = match conflict_table_remove(&mut self.conflicts, cid) {
            None => {
                proof {
                    assert(self.conflict_sets() =~= old(self).conflict_sets());
                }
                return Vec::new();
            },
            Some(s) => s,
        };
        let ghost members = set@;
        let mut rejected: Vec<TransactionHash> = Vec::new();
        let mut i: usize = 0;
        while i < set.len()
            invariant
                i <= set@.len(),
                members == set@,
                rejected@ == members.take(i as int).filter(|h: TransactionHash| h@ != accepted@),
            decreases set@.len() - i,
        {
            proof {
                assert(members.take(i + 1).drop_last() =~= members.take(i as int));
                reveal_with_fuel(Seq::filter, 1);
            }
            if !set[i].same(accepted) {
                rejected.push(set[i]);
            }
            i = i + 1;
        }
        assert(members.take(members.len() as int) =~= members);
        hash_numbers_remove(&mut self.tx_to_conflict, accepted);
        let ghost after_accepted = hash_numbers(self.tx_to_conflict);
        let mut j: usize = 0;
        while j < rejected.len()
            invariant
                j <= rejected@.len(),
                nonce_table(self.committed_nonces) == old(self).committed(),
                conflict_table(self.conflicts) == old(self).conflict_sets().remove(cid),
                self.next_conflict_id == old(self).next_id(),
                hash_numbers(self.tx_to_conflict) == after_accepted.remove_keys(
                    rejected@.take(j as int).map_values(|h: TransactionHash| h@).to_set(),
                ),
            decreases rejected@.len() - j,
        {
            hash_numbers_remove(&mut self.tx_to_conflict, &rejected[j]);
            proof {
                let s1 = rejected@.take(j as int).map_values(|h: TransactionHash| h@).to_set();
                let s2 = rejected@.take(j + 1).map_values(|h: TransactionHash| h@).to_set();
                assert(rejected@.take(j + 1).map_values(|h: TransactionHash| h@) =~= rejected@.take(
                    j as int,
                ).map_values(|h: TransactionHash| h@).push(rejected@[j as int]@));
                crate::keyorder::lemma_push_to_set(
                    rejected@.take(j as int).map_values(|h: TransactionHash| h@),
                    rejected@[j as int]@,
                );
                assert(s2 == s1.insert(rejected@[j as int]@));
                assert(after_accepted.remove_keys(s2) =~= after_accepted.remove_keys(s1).remove(
                    rejected@[j as int]@,
                ));
            }
            j = j + 1;
        }
        assert(rejected@.take(rejected@.len() as int) =~= rejected@);
        rejected
    }

    /// The number of open conflict sets.
    pub fn conflict_count(&self) -> (n: usize)
        ensures
            n == self.conflict_sets().dom().len(),
    {
        conflict_table_len(&self.conflicts)
    }

    /// The total pending spend of a sender: amount plus fee of each of its
    /// transactions, every addition saturating.
    pub fn pending_spend_for_sender(&self, sender: &Address, pending_txs: &[Transaction]) -> (t: u64)
        ensures
            t == pending_spend(sender@, pending_txs@, pending_txs@.len() as int),
    {
        let mut acc: u64 = 0;
        let mut i: usize = 0;
        while i < pending_txs.len()
            invariant
                i <= pending_txs@.len(),
                acc == pending_spend(sender@, pending_txs@, i as int),
            decreases pending_txs@.len() - i,
        {
            if pending_txs[i].sender.same(sender) {
                acc = acc.saturating_add(pending_txs[i].amount.saturating_add(pending_txs[i].fee));
            }
            i = i + 1;
        }
        acc
    }
}

/// The saturating total of amount plus fee of the first `n` transactions sent by `sender`.
pub open spec fn pending_spend(sender: Seq<char>, txs: Seq<Transaction>, n: int) -> int
    decreases n,
{
    if n <= 0 {
        0
    } else if txs[n - 1].sender@ == sender {
        sat_add(pending_spend(sender, txs, n - 1), sat_add(txs[n - 1].amount as int, txs[n - 1].fee as int))
    } else {
        pending_spend(sender, txs, n - 1)
    }
}

impl Default for ConflictDetector {
    fn default() -> (d: Self)
        ensures
            d.committed().dom().len() == 0 && d.committed().dom().finite(),
            d.next_id() == 1,
    {
        Self::new()
    }
}

/// Reverting a transaction that was just committed gives back the committed
/// (sender, nonce) pairs as they were, when its pair was free before.
pub proof fn law_commit_then_revert(a: ConflictDetector, b: ConflictDetector, c: ConflictDetector, tx: Transaction)
    requires
        !a.committed().contains_key((tx.sender@, tx.nonce)),
        b.committed() == a.committed().insert((tx.sender@, tx.nonce), tx_hash_of(tx)),
        c.committed() == b.committed().remove((tx.sender@, tx.nonce)),
    ensures
        c.committed() == a.committed(),
{
    assert(c.committed() =~= a.committed());
}

/// The pending spend of a prefix depends only on that prefix.
proof fn lemma_pending_spend_prefix(sender: Seq<char>, a: Seq<Transaction>, b: Seq<Transaction>, n: int)
    requires
        0 <= n <= a.len(),
        n <= b.len(),
        forall|j: int| 0 <= j < n ==> a[j] == b[j],
    ensures
        pending_spend(sender, a, n) == pending_spend(sender, b, n),
    decreases n,
{
    if n > 0 {
        lemma_pending_spend_prefix(sender, a, b, n - 1);
    }
}

/// A pending spend is a 64-bit amount.
proof fn lemma_pending_spend_bounds(sender: Seq<char>, txs: Seq<Transaction>, n: int)
    ensures
        0 <= pending_spend(sender, txs, n) <= u64::MAX,
    decreases n,
{
    if n > 0 {
        lemma_pending_spend_bounds(sender, txs, n - 1);
    }
}

/// Law: appending a transaction of the sender to the pending list adds its
/// amount and its fee to the sender's pending spend, capped at `u64::MAX`;
/// appending another sender's transaction changes nothing. With no pending
/// transactions the pending spend is zero.
pub proof fn law_pending_spend_adds_amount_and_fee(sender: Seq<char>, txs: Seq<Transaction>, tx: Transaction)
    ensures
        pending_spend(sender, Seq::<Transaction>::empty(), 0) == 0,
        tx.sender@ == sender ==> pending_spend(sender, txs.push(tx), txs.len() as int + 1) == (if pending_spend(
            sender,
            txs,
            txs.len() as int,
        ) + tx.amount + tx.fee > u64::MAX {
            u64::MAX as int
        } else {
            pending_spend(sender, txs, txs.len() as int) + tx.amount + tx.fee
        }),
        tx.sender@ != sender ==> pending_spend(sender, txs.push(tx), txs.len() as int + 1) == pending_spend(
            sender,
            txs,
            txs.len() as int,
        ),
{
    let n = txs.len() as int;
    lemma_pending_spend_prefix(sender, txs.push(tx), txs, n);
    lemma_pending_spend_bounds(sender, txs, n);
    assert(txs.push(tx)[n] == tx);
}

/// Law: the pending spend of a list holding one transaction of the sender is
/// its amount plus its fee, capped at `u64::MAX`.
pub proof fn law_pending_spend_single(tx: Transaction)
    ensures
        pending_spend(tx.sender@, seq![tx], 1) == (if tx.amount + tx.fee > u64::MAX {
            u64::MAX as int
        } else {
            tx.amount + tx.fee
        }),
{
    law_pending_spend_adds_amount_and_fee(tx.sender@, Seq::<Transaction>::empty(), tx);
    assert(Seq::<Transaction>::empty().push(tx) =~= seq![tx]);
}

} // verus!
