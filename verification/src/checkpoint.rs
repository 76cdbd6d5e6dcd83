//! Periodic checkpoints: when one is due, and what it records of the DAG and the
//! ledger. Storing them is left to the caller.
use vstd::prelude::*;
use crate::crypto::sha3_digest;
use crate::graph::DagGraph;
use crate::merkle::MerkleTree;
use crate::primitives::now_ms;
use crate::state::{state_bytes, LedgerState};
use crate::types::Checkpoint;

verus! {

/// The default number of transactions between checkpoints.
pub const DEFAULT_CHECKPOINT_INTERVAL: u64 = 10_000;

/// A checkpoint with the time it was made.
#[derive(Debug, Clone)]
pub struct CheckpointRecord {
    pub checkpoint: Checkpoint,
    pub created_at: u64,
}

/// Decides when checkpoints are due and makes them.
pub struct CheckpointManager {
    /// Transactions between checkpoints.
    pub tx_interval: u64,
    last_epoch: u64,
    tx_since_checkpoint: u64,
}

impl CheckpointManager {
    /// Transactions between checkpoints.
    pub closed spec fn interval_view(&self) -> u64 {
        self.tx_interval
    }

    /// The epoch of the last checkpoint.
    pub closed spec fn epoch_view(&self) -> u64 {
        self.last_epoch
    }

    /// Transactions since the last checkpoint.
    pub closed spec fn since_view(&self) -> u64 {
        self.tx_since_checkpoint
    }

    /// A manager with no checkpoint yet.
    pub fn new(tx_interval: u64) -> (m: Self)
        ensures
            m.interval_view() == tx_interval,
            m.epoch_view() == 0,
            m.since_view() == 0,
    {
        CheckpointManager { tx_interval, last_epoch: 0, tx_since_checkpoint: 0 }
    }

    /// Count a processed transaction; true when a checkpoint is due.
    pub fn on_transaction(&mut self) -> (due: bool)
        requires
            old(self).since_view() < u64::MAX,
        ensures
            final(self).since_view() == old(self).since_view() + 1,
            due == (old(self).since_view() + 1 >= old(self).interval_view()),
            final(self).epoch_view() == old(self).epoch_view(),
            final(self).interval_view() == old(self).interval_view(),
    {
        let count = self.tx_since_checkpoint + 1;
        self.tx_since_checkpoint = count;
        count >= self.tx_interval
    }

    /// Make a checkpoint of the DAG and the ledger: the next epoch, the DAG's depth
    /// and size, the ledger's state hash, and the Merkle root over the DAG's
    /// transaction hashes (listed in the order the DAG's map gives them).
    pub fn create_checkpoint(&mut self, dag: &DagGraph, state: &LedgerState) -> (rec: CheckpointRecord)
        requires
            old(self).epoch_view() < u64::MAX,
            dag.wf(),
            4 * dag.nodes_view().dom().len() <= usize::MAX,
        ensures
            final(self).epoch_view() == old(self).epoch_view() + 1,
            final(self).since_view() == 0,
            final(self).interval_view() == old(self).interval_view(),
            rec.checkpoint.epoch == old(self).epoch_view() + 1,
            rec.checkpoint.dag_depth == dag.depth_reached(),
            rec.checkpoint.transaction_count == dag.count(),
            rec.checkpoint.state_hash@ == sha3_digest(
                state_bytes(state.balances(), state.nonces(), state.stakes(), state.unstakes()),
            ),
            rec.checkpoint.validator_signatures@.len() == 0,
            exists|t: MerkleTree, hs: Seq<Seq<u8>>|
                #![trigger t.root_view(), hs.len()]
                {
                    &&& t.wf()
                    &&& t.root_view() == rec.checkpoint.merkle_root@
                    &&& hs.len() == dag.nodes_view().dom().len()
                    &&& t.leaves() == hs.len()
                    &&& forall|i: int| 0 <= i < hs.len() ==> #[trigger] dag.nodes_view().contains_key(hs[i])
                    &&& forall|i: int, j: int| 0 <= i < j < hs.len() ==> hs[i] != hs[j]
                    &&& forall|i: int| 0 <= i < hs.len() ==> #[trigger] t.leaf_view(i) == sha3_digest(hs[i])
                },
    {
        let epoch = self.last_epoch + 1;
        self.last_epoch = epoch;
        self.tx_since_checkpoint = 0;
        let state_hash = state.state_hash();
        let all_txs = dag.all_transactions();
        let mut hashes: Vec<Vec<u8>> = Vec::new();
        let mut i: usize = 0;
        while i < all_txs.len()
            invariant
                i <= all_txs@.len(),
                hashes@.len() == i,
                forall|k: int| 0 <= k < i ==> #[trigger] hashes@[k]@ == all_txs@[k]@.hash,
            decreases all_txs@.len() - i,
        {
            let mut h: Vec<u8> = Vec::new();
            crate::bytes::extend_bytes(&mut h, all_txs[i].hash.as_bytes());
            hashes.push(h);
            i = i + 1;
        }
        let mut refs: Vec<&[u8]> = Vec::new();
        let mut j: usize = 0;
        while j < hashes.len()
            invariant
                j <= hashes@.len(),
                refs@.len() == j,
                forall|k: int| 0 <= k < j ==> #[trigger] refs@[k]@ == hashes@[k]@,
            decreases hashes@.len() - j,
        {
            refs.push(hashes[j].as_slice());
            j = j + 1;
        }
        let merkle = MerkleTree::from_leaves(refs.as_slice());
        let merkle_root = merkle.root();
        let checkpoint = Checkpoint {
            epoch,
            dag_depth: dag.max_depth(),
            merkle_root,
            state_hash,
            timestamp: now_ms(),
            transaction_count: dag.len(),
            validator_signatures: Vec::new(),
        };
        proof {
            let hs = all_txs@.map_values(|n: crate::graph::DagNode| n@.hash);
            assert forall|a: int| 0 <= a < hs.len() implies #[trigger] merkle.leaf_view(a) == sha3_digest(hs[a]) by {
                assert(refs@[a]@ == hashes@[a]@);
                assert(hashes@[a]@ == all_txs@[a]@.hash);
            }
            assert forall|a: int| 0 <= a < hs.len() implies #[trigger] dag.nodes_view().contains_key(hs[a]) by {
                assert(hs[a] == all_txs@[a]@.hash);
            }
            assert forall|a: int, b: int| 0 <= a < b < hs.len() implies hs[a] != hs[b] by {
                assert(hs[a] == all_txs@[a]@.hash && hs[b] == all_txs@[b]@.hash);
            }
            assert(checkpoint.validator_signatures@.len() == 0);
        }
        CheckpointRecord { checkpoint, created_at: now_ms() }
    }

    /// The epoch of the last checkpoint.
    pub fn current_epoch(&self) -> (e: u64)
        ensures
            e == self.epoch_view(),
    {
        self.last_epoch
    }

    /// Transactions processed since the last checkpoint.
    pub fn tx_since_last(&self) -> (n: u64)
        ensures
            n == self.since_view(),
    {
        self.tx_since_checkpoint
    }
}

impl Default for CheckpointManager {
    fn default() -> (m: Self)
        ensures
            m.interval_view() == DEFAULT_CHECKPOINT_INTERVAL,
            m.epoch_view() == 0,
            m.since_view() == 0,
    {
        Self::new(DEFAULT_CHECKPOINT_INTERVAL)
    }
}

} // verus!
