//! A full node: the DAG under consensus, the mempool and the per-address rate
//! limiter, with the rules for submitting transactions and draining the pool.
use vstd::prelude::*;
use vstd::string::StringSliceAdditionalSpecFns;
use crate::constants::TOTAL_SUPPLY;
use crate::crypto::{ed25519_public_of, sha3_256, sha3_digest, KeyPair, SecretKey};
use crate::engine::{remote_power, vote_applied, ConsensusConfig, ConsensusEngine, ConsensusEvent};
use crate::error::{RelyoError, Result};
use crate::genesis::{create_genesis, signed_genesis};
use crate::graph::{
    counters_fit, graph_circulating, insert_accepted, insert_applied, insert_error, law_insert_keeps_circulation,
    DagGraph, NodeView,
};
use crate::address::genesis_address_text;
use crate::mempool::{drained, Mempool};
use crate::primitives::now_ms;
use crate::rate_limiter::{cleaned, recent, window_of, RateLimiter};
use crate::state::{amount_of, lemma_amounts_sum_insert};
use crate::token::{decimal, decimal_string};
use crate::transaction::{hash_view, tx_hash_of, Transaction, TransactionHash, TransactionStatus};
use crate::tips::hash_views;
use crate::types::NodeId;
use crate::vote::vote_fits;
use crate::netconfig::VotePayload;
use crate::graph::SUPPLY_CAP;

verus! {

/// Whether the rate limiter lets `addr` submit at `now` (ms on its clock).
pub open spec fn rate_allowed(r: RateLimiter, addr: Seq<char>, now: u64) -> bool {
    recent(window_of(r.windows_view(), addr), now).len() < r.limit()
}

/// The rate limiter after `addr` asked at `now`.
pub open spec fn rate_after(r: RateLimiter, addr: Seq<char>, now: u64) -> Map<Seq<char>, Seq<u64>> {
    let kept = recent(window_of(r.windows_view(), addr), now);
    r.windows_view().insert(addr, if rate_allowed(r, addr, now) { kept.push(now) } else { kept })
}

/// Whether a transaction's amount fits under the supply cap on top of what circulates.
pub open spec fn within_supply(g: DagGraph, tx: Transaction) -> bool {
    graph_circulating(g) + tx.amount <= TOTAL_SUPPLY
}

/// Whether one step of a batch applies its transaction: the counters have room
/// and the DAG accepts it.
pub open spec fn step_applied(g: DagGraph, tx: Transaction) -> bool {
    counters_fit(g, tx) && insert_accepted(g, tx)
}

/// Whether `states` runs a DAG through inserting `txs` in order: each step
/// applies its transaction when it can and leaves the DAG as it was otherwise.
pub open spec fn batch_run(txs: Seq<Transaction>, states: Seq<DagGraph>) -> bool {
    &&& states.len() == txs.len() + 1
    &&& forall|j: int|
        0 <= j < txs.len() ==> if step_applied(#[trigger] states[j], txs[j]) {
            insert_applied(states[j], states[j + 1], txs[j])
        } else {
            states[j + 1] == states[j]
        }
}

/// The hashes of the transactions among the first `n` of a run that were applied, in order.
pub open spec fn applied_hashes(txs: Seq<Transaction>, states: Seq<DagGraph>, n: int) -> Seq<Seq<u8>>
    decreases n,
{
    if n <= 0 {
        Seq::empty()
    } else {
        let before = applied_hashes(txs, states, n - 1);
        if step_applied(states[n - 1], txs[n - 1]) {
            before.push(tx_hash_of(txs[n - 1]))
        } else {
            before
        }
    }
}

/// The applied hashes of a run depend only on its first `n` steps.
proof fn lemma_applied_hashes_prefix(
    txs: Seq<Transaction>,
    states: Seq<DagGraph>,
    txs2: Seq<Transaction>,
    states2: Seq<DagGraph>,
    n: int,
)
    requires
        0 <= n <= txs.len(),
        n <= txs2.len(),
        n <= states.len(),
        n <= states2.len(),
        forall|j: int| 0 <= j < n ==> txs[j] == txs2[j] && states[j] == states2[j],
    ensures
        applied_hashes(txs, states, n) == applied_hashes(txs2, states2, n),
    decreases n,
{
    if n > 0 {
        lemma_applied_hashes_prefix(txs, states, txs2, states2, n - 1);
    }
}

/// The seed of the genesis keypair: SHA3-256 of the genesis tag.
pub open spec fn genesis_seed() -> Seq<u8> {
    sha3_digest("relyo-genesis-v1".spec_bytes())
}

/// Whole seconds from `started` to `now` (ms), zero if `now` is earlier.
pub open spec fn uptime_at(started: u64, now: u64) -> u64 {
    if now >= started {
        ((now - started) / 1000) as u64
    } else {
        0
    }
}

/// Whether node `b` and result `res` are what submitting `tx` to node `a` at
/// `now` (ms on the rate limiter's clock) gives: refused, with the error given,
/// when the sender is over the rate limit, when the amount would push what
/// circulates past the supply cap, when the DAG would refuse it, when it is
/// already pending, or when the mempool is full; otherwise placed in the mempool
/// under the returned hash. The DAG and everything but the mempool and the rate
/// limiter stay as they were.
pub open spec fn submit_outcome(a: RelyoNode, b: RelyoNode, tx: Transaction, now: u64, res: Result<TransactionHash>) -> bool {
    &&& b.engine_view() == a.engine_view()
    &&& b.id_view() == a.id_view()
    &&& b.name_view() == a.name_view()
    &&& b.started_view() == a.started_view()
    &&& b.limiter_view().limit() == a.limiter_view().limit()
    &&& b.limiter_view().windows_view() == rate_after(a.limiter_view(), tx.sender@, now)
    &&& {
        let g = a.dag_view();
        let pool = a.pool_view();
        let h = tx_hash_of(tx);
        let allowed = rate_allowed(a.limiter_view(), tx.sender@, now);
        let checked = allowed && within_supply(g, tx) && insert_accepted(g, tx);
        let pending = pool.txs_view().contains_key(h);
        let full = pool.txs_view().dom().len() >= pool.capacity();
        &&& res is Ok <==> checked && !pending && !full
        &&& res is Err ==> b.pool_view() == pool
        &&& !allowed ==> (res matches Err(RelyoError::RateLimitExceeded(m)) && m@ == tx.sender@)
        &&& allowed && !within_supply(g, tx) ==> (res matches Err(RelyoError::SupplyCapExceeded(m))
            && m@ == "supply cap exceeded: "@ + decimal(graph_circulating(g) as nat) + " + "@ + decimal(
            tx.amount as nat,
        ) + " > "@ + decimal(TOTAL_SUPPLY as nat))
        &&& allowed && within_supply(g, tx) && !insert_accepted(g, tx) ==> (res matches Err(e)
            && insert_error(g, tx, e))
        &&& checked && pending ==> (res matches Err(RelyoError::InvalidTransaction(m))
            && m@ == "transaction already pending"@)
        &&& checked && !pending && full ==> (res matches Err(RelyoError::Dag(m)) && m@ == "mempool full"@)
        &&& res matches Ok(hh) ==> {
            &&& hh@ == h
            &&& b.pool_view().txs_view() == pool.txs_view().insert(h, tx@)
            &&& b.pool_view().txs_view().contains_key(hh@)
        }
    }
}

/// Whether node `b` and the hashes `applied` are what draining up to
/// `batch_size` transactions from the mempool of node `a` gives: the oldest
/// pending transactions leave the pool, each is inserted into the DAG in turn
/// when it can be (those the DAG refuses are dropped), `applied` lists the
/// hashes of those inserted in order, no more circulates than before, and the
/// rate limiter, the node's id, name and start time stay as they were.
pub open spec fn batch_outcome(a: RelyoNode, b: RelyoNode, batch_size: usize, applied: Seq<Seq<u8>>) -> bool {
    &&& b.limiter_view() == a.limiter_view()
    &&& b.id_view() == a.id_view()
    &&& b.name_view() == a.name_view()
    &&& b.started_view() == a.started_view()
    &&& exists|hs: Seq<Seq<u8>>, txs: Seq<Transaction>, states: Seq<DagGraph>|
        {
            &&& #[trigger] drained(a.pool_view().txs_view(), b.pool_view().txs_view(), hs)
            &&& hs.len() == txs.len()
            &&& txs.len() == (if a.pool_view().txs_view().dom().len() <= batch_size {
                a.pool_view().txs_view().dom().len() as int
            } else {
                batch_size as int
            })
            &&& forall|j: int| 0 <= j < txs.len() ==> #[trigger] txs[j]@ == a.pool_view().txs_view()[hs[j]]
            &&& #[trigger] batch_run(txs, states)
            &&& states[0] == a.dag_view()
            &&& states.last() == b.dag_view()
            &&& applied == applied_hashes(txs, states, txs.len() as int)
        }
    &&& graph_circulating(b.dag_view()) <= graph_circulating(a.dag_view())
}

/// What reaches a running node from its network layer and its timers.
#[derive(Debug, Clone)]
pub enum NodeEvent {
    /// A transaction gossiped by a peer.
    Transaction(Transaction),
    /// A peer asks for this node's vote on a transaction.
    VoteRequest(TransactionHash),
    /// A peer's vote on a transaction.
    VoteResponse(VotePayload),
    /// Time to move pending transactions into the DAG.
    MempoolTick,
    /// Time to forget old rate-limit history.
    CleanupTick,
}

/// What the node asks its network layer to do after an event.
#[derive(Debug, Clone)]
pub enum NodeAction {
    /// Nothing to send.
    Nothing,
    /// Ban and disconnect the peer the event came from.
    BanPeer,
    /// Publish this vote.
    PublishVote(VotePayload),
}

/// How many pending transactions a mempool tick moves into the DAG at most.
pub const MEMPOOL_BATCH_SIZE: usize = 1000;

/// Whether a remote vote can be counted without its tally's arithmetic leaving
/// its integer types (a vote by a non-validator is ignored and always fits).
pub open spec fn remote_vote_ok(e: ConsensusEngine, v: VotePayload) -> bool {
    e.validators_view().contains_key(v.node_id@) ==> vote_fits(
        e.aggregator_view().tally_of(v.tx_hash@),
        v.accept,
        e.validators_view()[v.node_id@],
    )
}

/// Whether node `b` and action `act` are what handling `ev` at `now` (ms on the
/// rate limiter's clock) makes of node `a`:
/// - a gossiped transaction is submitted (see `submit_outcome`), and the peer is
///   banned exactly when the submission fails for the supply cap;
/// - a vote request changes nothing and publishes this node's vote: accept
///   exactly when its DAG holds the transaction;
/// - a vote response is counted as a remote vote (see `vote_applied`) unless its
///   tally would overflow, in which case it is dropped;
/// - a mempool tick moves up to `MEMPOOL_BATCH_SIZE` transactions into the DAG
///   (see `batch_outcome`);
/// - a cleanup tick forgets the rate-limit history that left the window at `now`.
pub open spec fn event_handled(a: RelyoNode, b: RelyoNode, ev: NodeEvent, now: u64, act: NodeAction) -> bool {
    match ev {
        NodeEvent::Transaction(tx) => {
            &&& act is BanPeer || act is Nothing
            &&& exists|res: Result<TransactionHash>|
                #[trigger] submit_outcome(a, b, tx, now, res) && (act is BanPeer <==> res matches Err(
                    RelyoError::SupplyCapExceeded(_),
                ))
            &&& act is BanPeer <==> rate_allowed(a.limiter_view(), tx.sender@, now) && !within_supply(a.dag_view(), tx)
        },
        NodeEvent::VoteRequest(h) => {
            &&& b == a
            &&& act matches NodeAction::PublishVote(v) && v.tx_hash == h && v.accept
                == a.dag_view().nodes_view().contains_key(h@) && v.node_id@ == a.id_view()
        },
        NodeEvent::VoteResponse(v) => {
            &&& act is Nothing
            &&& b.pool_view() == a.pool_view()
            &&& b.limiter_view() == a.limiter_view()
            &&& b.id_view() == a.id_view()
            &&& b.name_view() == a.name_view()
            &&& b.started_view() == a.started_view()
            &&& remote_vote_ok(a.engine_view(), v) ==> exists|e: Option<ConsensusEvent>|
                #[trigger] vote_applied(
                    a.engine_view(),
                    b.engine_view(),
                    v.node_id@,
                    v.tx_hash,
                    v.accept,
                    remote_power(a.engine_view().validators_view(), a.engine_view().config_view(), v.node_id@),
                    e,
                )
            &&& !remote_vote_ok(a.engine_view(), v) ==> b == a
        },
        NodeEvent::MempoolTick => {
            &&& act is Nothing
            &&& exists|hs: Seq<Seq<u8>>| #[trigger] batch_outcome(a, b, MEMPOOL_BATCH_SIZE, hs)
        },
        NodeEvent::CleanupTick => {
            &&& act is Nothing
            &&& b.engine_view() == a.engine_view()
            &&& b.pool_view() == a.pool_view()
            &&& b.id_view() == a.id_view()
            &&& b.name_view() == a.name_view()
            &&& b.started_view() == a.started_view()
            &&& b.limiter_view().limit() == a.limiter_view().limit()
            &&& b.limiter_view().windows_view() == cleaned(a.limiter_view().windows_view(), now)
        },
    }
}

/// A full Relyo node.
pub struct RelyoNode {
    node_name: String,
    consensus: ConsensusEngine,
    mempool: Mempool,
    rate_limiter: RateLimiter,
    node_id: NodeId,
    started_at: u64,
}

impl RelyoNode {
    /// The consensus engine, which holds the DAG.
    pub closed spec fn engine_view(&self) -> ConsensusEngine {
        self.consensus
    }

    /// The DAG.
    pub open spec fn dag_view(&self) -> DagGraph {
        self.engine_view().dag_view()
    }

    /// The mempool.
    pub closed spec fn pool_view(&self) -> Mempool {
        self.mempool
    }

    /// The rate limiter.
    pub closed spec fn limiter_view(&self) -> RateLimiter {
        self.rate_limiter
    }

    /// The node's id.
    pub closed spec fn id_view(&self) -> Seq<char> {
        self.node_id@
    }

    /// The node's name.
    pub closed spec fn name_view(&self) -> Seq<char> {
        self.node_name@
    }

    /// When the node started (ms since the UNIX epoch).
    pub closed spec fn started_view(&self) -> u64 {
        self.started_at
    }

    /// The node is consistent: its parts are, the ledger's balances are a finite
    /// table, and no more than the supply cap circulates.
    pub open spec fn wf(&self) -> bool {
        &&& self.engine_view().wf()
        &&& self.pool_view().wf()
        &&& self.limiter_view().wf()
        &&& self.dag_view().ledger().balances().dom().finite()
        &&& graph_circulating(self.dag_view()) <= TOTAL_SUPPLY
    }

    /// A node named `node_name` with an empty DAG under `consensus`, a mempool
    /// for `mempool_max_size` transactions and a limit of `rate_limit_tps`
    /// submissions per second per address. Its id is its name.
    pub fn new(node_name: &str, consensus: ConsensusConfig, mempool_max_size: usize, rate_limit_tps: u32) -> (n:
        Self)
        ensures
            n.wf(),
            n.name_view() == node_name@,
            n.id_view() == node_name@,
            n.dag_view().nodes_view().dom().len() == 0,
            n.dag_view().count() == 0,
            n.dag_view().ledger().balances() == Map::<Seq<char>, u64>::empty(),
            n.engine_view().config_view() == consensus,
            n.engine_view().local_view() == node_name@,
            n.pool_view().txs_view().dom().len() == 0,
            n.pool_view().capacity() == mempool_max_size,
            n.limiter_view().windows_view() == Map::<Seq<char>, Seq<u64>>::empty(),
            n.limiter_view().limit() == rate_limit_tps,
    {
        let node_id = NodeId::new(node_name);
        let state = crate::state::LedgerState::new();
        let tips = crate::tips::TipSelector::new();
        let conflicts = crate::conflict::ConflictDetector::new();
        let dag = DagGraph::new(state, tips, conflicts);
        let engine = ConsensusEngine::new(dag, consensus, node_id.clone());
        let n = RelyoNode {
            node_name: String::from_str(node_name),
            consensus: engine,
            mempool: Mempool::new(mempool_max_size),
            rate_limiter: RateLimiter::new(rate_limit_tps),
            node_id,
            started_at: now_ms(),
        };
        proof {
            let l = n.dag_view().ledger();
            assert(l.balances().dom() =~= Set::<Seq<char>>::empty());
            assert(l.stakes().dom() =~= Set::<Seq<char>>::empty());
            assert(l.unstakes().dom() =~= Set::<Seq<char>>::empty());
            crate::keyorder::lemma_sorted_keys(l.balances());
            crate::keyorder::lemma_sorted_keys(l.stakes());
            crate::keyorder::lemma_sorted_keys(l.unstakes());
            assert(crate::keyorder::sorted_entries(l.balances()) =~= Seq::empty());
            assert(crate::keyorder::sorted_entries(l.stakes()) =~= Seq::empty());
            assert(crate::keyorder::sorted_entries(l.unstakes()) =~= Seq::empty());
        }
        n
    }

    /// Insert the genesis transaction, signed with the keypair whose seed is
    /// SHA3-256 of the genesis tag, so that every node builds the same genesis.
    pub fn init_genesis(&mut self)
        requires
            old(self).wf(),
        ensures
            final(self).wf(),
            ({
                let pk = ed25519_public_of(genesis_seed());
                let v = signed_genesis(genesis_seed(), pk);
                let h = hash_view(v);
                &&& final(self).dag_view().nodes_view() == old(self).dag_view().nodes_view().insert(
                    h,
                    NodeView {
                        tx: v,
                        hash: h,
                        status: TransactionStatus::Confirmed,
                        children: Seq::empty(),
                        weight: 1,
                        depth: 0,
                    },
                )
                &&& final(self).dag_view().tip_selector().tip_set() == old(self).dag_view().tip_selector().tip_set().insert(h)
            }),
            graph_circulating(final(self).dag_view()) == graph_circulating(old(self).dag_view()),
            final(self).pool_view() == old(self).pool_view(),
            final(self).limiter_view() == old(self).limiter_view(),
    {
        let tag = "relyo-genesis-v1";
        let genesis_seed_bytes = sha3_256(tag.as_bytes());
        let genesis_secret = SecretKey::from_bytes(genesis_seed_bytes);
        let genesis_kp = KeyPair::from_secret(&genesis_secret);
        let ghost before = self.dag_view();
        let dag = self.consensus.dag_mut();
        let _hashes = create_genesis(dag, &genesis_kp);
        proof {
            let b = before.ledger().balances();
            lemma_amounts_sum_insert(b, genesis_address_text(), amount_of(b, genesis_address_text()));
        }
    }

    /// Submit a transaction at `now` (ms on the rate limiter's clock): refused when
    /// its sender is over the rate limit, when its amount would push what
    /// circulates past the supply cap, when the DAG would refuse it (see
    /// `DagGraph::check_transaction`), when it is already pending, or when the
    /// mempool is full; otherwise placed in the mempool and its hash returned.
    /// The DAG takes it in `process_mempool_batch`; the caller broadcasts it.
    pub fn submit_transaction_at(&mut self, tx: Transaction, now: u64) -> (res: Result<TransactionHash>)
        requires
            old(self).wf(),
        ensures
            final(self).wf(),
            submit_outcome(*old(self), *final(self), tx, now, res),
    {
        if !self.rate_limiter.check_at(&tx.sender, now) {
            return Err(RelyoError::RateLimitExceeded(String::from_str(tx.sender.as_str())));
        }
        let total_circulating = self.consensus.dag().state().total_circulating();
        if total_circulating.saturating_add(tx.amount) > TOTAL_SUPPLY {
            let mut msg = String::from_str("supply cap exceeded: ");
            msg.append(decimal_string(total_circulating).as_str());
            msg.append(" + ");
            msg.append(decimal_string(tx.amount).as_str());
            msg.append(" > ");
            msg.append(decimal_string(TOTAL_SUPPLY).as_str());
            return Err(RelyoError::SupplyCapExceeded(msg));
        }
        let hash = match self.consensus.dag().check_transaction(&tx) {
            Err(e) => return Err(e),
            Ok(h) => h,
        };
        if self.mempool.contains(&hash) {
            return Err(RelyoError::InvalidTransaction(String::from_str("transaction already pending")));
        }
        if !self.mempool.insert(tx) {
            return Err(RelyoError::Dag(String::from_str("mempool full")));
        }
        Ok(hash)
    }

    /// Submit a transaction now (see `submit_transaction_at`): on success it is
    /// in the mempool under the returned hash and the DAG is unchanged.
    pub fn submit_transaction(&mut self, tx: Transaction) -> (res: Result<TransactionHash>)
        requires
            old(self).wf(),
        ensures
            final(self).wf(),
            final(self).engine_view() == old(self).engine_view(),
            res is Ok ==> within_supply(old(self).dag_view(), tx) && insert_accepted(old(self).dag_view(), tx),
            res matches Ok(h) ==> h@ == tx_hash_of(tx) && final(self).pool_view().txs_view().contains_key(h@)
                && final(self).pool_view().txs_view() == old(self).pool_view().txs_view().insert(h@, tx@),
            res is Err ==> final(self).pool_view() == old(self).pool_view(),
            !within_supply(old(self).dag_view(), tx) ==> res is Err,
            !insert_accepted(old(self).dag_view(), tx) ==> res is Err,
    {
        let now = self.rate_limiter.clock_reading();
        self.submit_transaction_at(tx, now)
    }

    /// Drain up to `batch_size` transactions from the mempool, oldest first, and
    /// insert each into the DAG in turn; those the DAG refuses are dropped.
    /// Returns the hashes of those inserted, in order.
    pub fn process_mempool_batch(&mut self, batch_size: usize) -> (hashes: Vec<TransactionHash>)
        requires
            old(self).wf(),
        ensures
            final(self).wf(),
            batch_outcome(*old(self), *final(self), batch_size, hash_views(hashes@)),
    {
        let batch = self.mempool.drain_batch(batch_size);
        let ghost hs = choose|hs: Seq<Seq<u8>>|
            drained(old(self).pool_view().txs_view(), self.pool_view().txs_view(), hs) && hs.len() == batch@.len()
                && forall|i: int| 0 <= i < batch@.len() ==> #[trigger] batch@[i]@ == old(self).pool_view().txs_view()[hs[i]];
        let ghost pool_after = self.pool_view();
        let mut hashes: Vec<TransactionHash> = Vec::new();
        let ghost mut states: Seq<DagGraph> = seq![self.dag_view()];
        let ghost mut txs: Seq<Transaction> = Seq::empty();
        let mut i: usize = 0;
        while i < batch.len()
            invariant
                i <= batch@.len(),
                self.wf(),
                self.limiter_view() == old(self).limiter_view(),
                self.id_view() == old(self).id_view(),
                self.name_view() == old(self).name_view(),
                self.started_view() == old(self).started_view(),
                self.pool_view() == pool_after,
                txs.len() == i,
                forall|j: int| 0 <= j < i ==> #[trigger] txs[j]@ == batch@[j]@,
                states.len() == i + 1,
                states[0] == old(self).dag_view(),
                states.last() == self.dag_view(),
                batch_run(txs, states),
                hash_views(hashes@) == applied_hashes(txs, states, i as int),
                graph_circulating(self.dag_view()) <= graph_circulating(old(self).dag_view()),
            decreases batch@.len() - i,
        {
            let tx = batch[i].clone();
            let ghost g = self.dag_view();
            let ghost t = tx;
            let ghost old_hashes = hashes@;
            if self.consensus.dag().has_room_for(&tx) {
                let dag = self.consensus.dag_mut();
                match dag.insert(tx) {
                    Ok(h) => {
                        hashes.push(h);
                        proof {
                            law_insert_keeps_circulation(g, self.dag_view(), t);
                        }
                    },
                    Err(_) => {},
                }
            }
            proof {
                let states2 = states.push(self.dag_view());
                let txs2 = txs.push(t);
                assert forall|j: int| 0 <= j < txs2.len() implies if step_applied(#[trigger] states2[j], txs2[j]) {
                    insert_applied(states2[j], states2[j + 1], txs2[j])
                } else {
                    states2[j + 1] == states2[j]
                } by {
                    if j < txs.len() {
                        assert(states2[j] == states[j]);
                        assert(states2[j + 1] == states[j + 1]);
                        assert(txs2[j] == txs[j]);
                    }
                }
                lemma_applied_hashes_prefix(txs, states, txs2, states2, i as int);
                if step_applied(g, t) {
                    assert(hash_views(hashes@) =~= hash_views(old_hashes).push(tx_hash_of(t)));
                }
                states = states2;
                txs = txs2;
            }
            i = i + 1;
        }
        proof {
            assert(drained(old(self).pool_view().txs_view(), self.pool_view().txs_view(), hs));
            assert(batch_run(txs, states));
        }
        hashes
    }

    /// Seconds the node has been up at `now` (ms since the UNIX epoch); zero if
    /// `now` is before the start.
    pub fn uptime_secs_at(&self, now: u64) -> (secs: u64)
        ensures
            secs == (if now >= self.started_view() { (now - self.started_view()) / 1000 } else { 0 }),
            secs == uptime_at(self.started_view(), now),
    {
        now.saturating_sub(self.started_at) / 1000
    }

    /// Seconds the node has been up (see `uptime_secs_at`), at the system clock's
    /// reading, of which nothing is promised.
    pub fn uptime_secs(&self) -> (secs: u64)
        ensures
            exists|now: u64| #[trigger] uptime_at(self.started_view(), now) == secs,
    {
        self.uptime_secs_at(now_ms())
    }

    /// The node's id.
    pub fn node_id(&self) -> (id: &NodeId)
        ensures
            id@ == self.id_view(),
    {
        &self.node_id
    }

    /// The node's name.
    pub fn node_name(&self) -> (name: &str)
        ensures
            name@ == self.name_view(),
    {
        self.node_name.as_str()
    }

    /// The number of transactions inserted into the DAG.
    pub fn dag_size(&self) -> (n: u64)
        ensures
            n == self.dag_view().count(),
    {
        self.consensus.dag().len()
    }

    /// The number of pending mempool transactions.
    pub fn mempool_size(&self) -> (n: usize)
        ensures
            n == self.pool_view().txs_view().dom().len(),
    {
        self.mempool.len()
    }

    /// The DAG.
    pub fn dag(&self) -> (d: &DagGraph)
        ensures
            *d == self.dag_view(),
    {
        self.consensus.dag()
    }

    /// The consensus engine.
    pub fn consensus(&self) -> (c: &ConsensusEngine)
        ensures
            *c == self.engine_view(),
    {
        &self.consensus
    }

    /// The mempool.
    pub fn mempool(&self) -> (m: &Mempool)
        ensures
            *m == self.pool_view(),
    {
        &self.mempool
    }

    /// The rate limiter.
    pub fn rate_limiter(&self) -> (r: &RateLimiter)
        ensures
            *r == self.limiter_view(),
    {
        &self.rate_limiter
    }

    /// Queue a transaction heard from the network in the mempool (see `Mempool::insert`).
    pub fn queue_transaction(&mut self, tx: Transaction) -> (added: bool)
        requires
            old(self).wf(),
        ensures
            final(self).wf(),
            final(self).engine_view() == old(self).engine_view(),
            final(self).limiter_view() == old(self).limiter_view(),
            added <==> !old(self).pool_view().txs_view().contains_key(tx_hash_of(tx))
                && old(self).pool_view().txs_view().dom().len() < old(self).pool_view().capacity(),
            added ==> final(self).pool_view().txs_view() == old(self).pool_view().txs_view().insert(
                tx_hash_of(tx),
                tx@,
            ),
            !added ==> final(self).pool_view().txs_view() == old(self).pool_view().txs_view(),
    {
        self.mempool.insert(tx)
    }

    /// Count a remote validator's vote (see `ConsensusEngine::process_remote_vote`).
    pub fn process_remote_vote(&mut self, tx_hash: &TransactionHash, voter: &NodeId, accept: bool) -> (ev:
        Option<ConsensusEvent>)
        requires
            old(self).wf(),
            old(self).engine_view().validators_view().contains_key(voter@) ==> vote_fits(
                old(self).engine_view().aggregator_view().tally_of(tx_hash@),
                accept,
                old(self).engine_view().validators_view()[voter@],
            ),
        ensures
            final(self).wf(),
            final(self).dag_view().ledger() == old(self).dag_view().ledger(),
            final(self).pool_view() == old(self).pool_view(),
            final(self).limiter_view() == old(self).limiter_view(),
            final(self).id_view() == old(self).id_view(),
            final(self).name_view() == old(self).name_view(),
            final(self).started_view() == old(self).started_view(),
            vote_applied(
                old(self).engine_view(),
                final(self).engine_view(),
                voter@,
                *tx_hash,
                accept,
                remote_power(old(self).engine_view().validators_view(), old(self).engine_view().config_view(), voter@),
                ev,
            ),
    {
        self.consensus.process_remote_vote(tx_hash, voter, accept)
    }

    /// Forget rate-limit history older than the window (see `RateLimiter::cleanup`).
    pub fn cleanup_rate_limits(&mut self)
        requires
            old(self).wf(),
        ensures
            final(self).wf(),
            final(self).engine_view() == old(self).engine_view(),
            final(self).pool_view() == old(self).pool_view(),
            final(self).id_view() == old(self).id_view(),
            final(self).name_view() == old(self).name_view(),
            final(self).started_view() == old(self).started_view(),
            final(self).limiter_view().limit() == old(self).limiter_view().limit(),
            exists|now: u64| #[trigger] cleaned(old(self).limiter_view().windows_view(), now)
                == final(self).limiter_view().windows_view(),
    {
        self.rate_limiter.cleanup();
    }

    /// Handle one event at `now` (ms on the rate limiter's clock) and say what the
    /// network layer should do (see `event_handled`).
    pub fn on_event_at(&mut self, ev: NodeEvent, now: u64) -> (act: NodeAction)
        requires
            old(self).wf(),
        ensures
            final(self).wf(),
            event_handled(*old(self), *final(self), ev, now, act),
    {
        match ev {
            NodeEvent::Transaction(tx) => {
                let res = self.submit_transaction_at(tx, now);
                proof {
                    assert(SUPPLY_CAP == TOTAL_SUPPLY);
                }
                match res {
                    Err(RelyoError::SupplyCapExceeded(_)) => NodeAction::BanPeer,
                    _ => NodeAction::Nothing,
                }
            },
            NodeEvent::VoteRequest(h) => {
                let accept = self.consensus.dag().contains(&h);
                NodeAction::PublishVote(
                    VotePayload { tx_hash: h, accept, node_id: String::from_str(self.node_id.as_str()) },
                )
            },
            NodeEvent::VoteResponse(v) => {
                let voter = NodeId::new(v.node_id.as_str());
                if self.consensus.remote_vote_fits(&v.tx_hash, &voter, v.accept) {
                    let _ = self.process_remote_vote(&v.tx_hash, &voter, v.accept);
                }
                NodeAction::Nothing
            },
            NodeEvent::MempoolTick => {
                let _ = self.process_mempool_batch(MEMPOOL_BATCH_SIZE);
                NodeAction::Nothing
            },
            NodeEvent::CleanupTick => {
                self.rate_limiter.cleanup_at(now);
                NodeAction::Nothing
            },
        }
    }

    /// Handle one event now (see `on_event_at`), at the rate limiter's clock
    /// reading, of which nothing is promised.
    pub fn on_event(&mut self, ev: NodeEvent) -> (act: NodeAction)
        requires
            old(self).wf(),
        ensures
            final(self).wf(),
            exists|now: u64| #[trigger] event_handled(*old(self), *final(self), ev, now, act),
    {
        let now = self.rate_limiter.clock_reading();
        self.on_event_at(ev, now)
    }
}

} // verus!
