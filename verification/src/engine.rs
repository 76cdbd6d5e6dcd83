//! The consensus engine: validators with voting power, and the decision taken on
//! each incoming vote. Delivering the finality events is left to the caller.
use vstd::prelude::*;
use dashmap::DashMap;
use std::collections::hash_map::RandomState;
use crate::graph::{DagGraph, NodeView};
use crate::state::amount_of;
use crate::tables::{
    amount_table, amount_table_clear, amount_table_get, amount_table_insert, amount_table_len,
    amount_table_new,
};
use crate::primitives::now_ms;
use crate::transaction::{TransactionHash, TransactionStatus};
use crate::types::NodeId;
use crate::vote::{vote_fits, Vote, VoteAggregator, VoteOutcome};

verus! {

/// Events emitted by the consensus engine.
#[derive(Debug, Clone)]
pub enum ConsensusEvent {
    /// A transaction reached finality.
    Finalized { tx_hash: TransactionHash, accepted: bool },
}

/// Configuration of the consensus engine.
#[derive(Debug, Clone)]
pub struct ConsensusConfig {
    /// Peers sampled per gossip round.
    pub sample_size: usize,
    /// Votes required before deciding.
    pub quorum: u64,
    /// Accept threshold in basis points.
    pub threshold_bps: u64,
    /// Rounds before forcing a decision.
    pub max_rounds: u32,
    /// Interval between gossip rounds (ms).
    pub round_interval_ms: u64,
    /// Votes older than this are ignored (ms).
    pub vote_max_age_ms: u64,
    /// Voting power a validator needs for its vote to count.
    pub min_validator_voting_power: u64,
    /// Total voting power required before finalization.
    pub min_total_voting_power: u64,
}

impl Default for ConsensusConfig {
    fn default() -> (c: Self)
        ensures
            c.sample_size == 20,
            c.quorum == 14,
            c.threshold_bps == 6667,
            c.max_rounds == 10,
            c.round_interval_ms == 100,
            c.vote_max_age_ms == 15_000,
            c.min_validator_voting_power == 1,
            c.min_total_voting_power == 14,
    {
        ConsensusConfig {
            sample_size: 20,
            quorum: 14,
            threshold_bps: 6667,
            max_rounds: 10,
            round_interval_ms: 100,
            vote_max_age_ms: 15_000,
            min_validator_voting_power: 1,
            min_total_voting_power: 14,
        }
    }
}

/// What happens to a vote: ignored, or recorded with a given voting power.
pub open spec fn vote_power(
    validators: Map<Seq<char>, u64>,
    config: ConsensusConfig,
    vote: Vote,
    now: u64,
) -> Option<u64> {
    let age = if now >= vote.timestamp { now - vote.timestamp } else { 0 };
    if age > config.vote_max_age_ms {
        None
    } else if !validators.contains_key(vote.voter@) {
        None
    } else if validators[vote.voter@] < config.min_validator_voting_power {
        None
    } else {
        Some(validators[vote.voter@])
    }
}

/// The status a vertex gets from a vote outcome.
pub open spec fn status_of(o: VoteOutcome) -> TransactionStatus {
    match o {
        VoteOutcome::Accepted => TransactionStatus::Confirmed,
        VoteOutcome::Rejected => TransactionStatus::Rejected,
        VoteOutcome::Pending => TransactionStatus::Voting,
    }
}

/// The DAG's vertices after a vertex's status is set (if it is present).
pub open spec fn with_status(nodes: Map<Seq<u8>, NodeView>, h: Seq<u8>, s: TransactionStatus) -> Map<
    Seq<u8>,
    NodeView,
> {
    if nodes.contains_key(h) {
        nodes.insert(h, NodeView { status: s, ..nodes[h] })
    } else {
        nodes
    }
}

/// The voting power a remote validator's vote, stamped on arrival, is counted
/// with: its recorded power when it meets the minimum, else none.
pub open spec fn remote_power(validators: Map<Seq<char>, u64>, config: ConsensusConfig, voter: Seq<char>) -> Option<
    u64,
> {
    if validators.contains_key(voter) && validators[voter] >= config.min_validator_voting_power {
        Some(validators[voter])
    } else {
        None
    }
}

/// Whether engine `f` and event `ev` are what processing a vote by `voter` on
/// `tx_hash` makes of engine `e`, the vote counting with `power` (none: ignored).
/// Validators, configuration, total power, local id and ledger stay as they were;
/// an ignored vote changes nothing; a counted one is added to the tally (unless
/// the voter already voted), the vertex's status follows the outcome, and a
/// decided transaction's tally is dropped and its finality returned.
pub open spec fn vote_applied(
    e: ConsensusEngine,
    f: ConsensusEngine,
    voter: Seq<char>,
    tx_hash: TransactionHash,
    accept: bool,
    power: Option<u64>,
    ev: Option<ConsensusEvent>,
) -> bool {
    &&& f.wf()
    &&& f.validators_view() == e.validators_view()
    &&& f.config_view() == e.config_view()
    &&& f.total_power_view() == e.total_power_view()
    &&& f.local_view() == e.local_view()
    &&& f.dag_view().ledger() == e.dag_view().ledger()
    &&& power is None ==> ev is None && f.dag_view() == e.dag_view() && f.aggregator_view() == e.aggregator_view()
    &&& power matches Some(p) ==> {
        let agg = e.aggregator_view();
        let t = agg.tally_of(tx_hash@);
        let t2 = if t.voters.contains(voter) {
            t
        } else {
            crate::vote::with_vote(t, voter, accept, p)
        };
        let o = agg.decide(t2);
        &&& f.dag_view().nodes_view() == with_status(e.dag_view().nodes_view(), tx_hash@, status_of(o))
        &&& o == VoteOutcome::Pending ==> ev is None && f.aggregator_view().tallies_view()
            == agg.tallies_view().insert(tx_hash@, t2)
        &&& o != VoteOutcome::Pending ==> ev == Some(
            ConsensusEvent::Finalized { tx_hash: tx_hash, accepted: o == VoteOutcome::Accepted },
        ) && f.aggregator_view().tallies_view() == agg.tallies_view().remove(tx_hash@)
    }
}

/// Drives vote aggregation over the local DAG.
pub struct ConsensusEngine {
    dag: DagGraph,
    aggregator: VoteAggregator,
    config: ConsensusConfig,
    validators: DashMap<String, u64, RandomState>,
    total_voting_power: u64,
    local_node: NodeId,
}

impl ConsensusEngine {
    /// The DAG.
    pub closed spec fn dag_view(&self) -> DagGraph {
        self.dag
    }

    /// The vote aggregator.
    pub closed spec fn aggregator_view(&self) -> VoteAggregator {
        self.aggregator
    }

    /// The configuration.
    pub closed spec fn config_view(&self) -> ConsensusConfig {
        self.config
    }

    /// Voting power by validator id.
    pub closed spec fn validators_view(&self) -> Map<Seq<char>, u64> {
        amount_table(self.validators)
    }

    /// The recorded total voting power.
    pub closed spec fn total_power_view(&self) -> u64 {
        self.total_voting_power
    }

    /// The local node's id.
    pub closed spec fn local_view(&self) -> Seq<char> {
        self.local_node@
    }

    /// The engine is consistent: its DAG and aggregator are.
    pub open spec fn wf(&self) -> bool {
        self.dag_view().wf() && self.aggregator_view().wf()
    }

    /// An engine whose only validator is the local node, with power 1.
    pub fn new(dag: DagGraph, config: ConsensusConfig, local_node: NodeId) -> (e: Self)
        requires
            dag.wf(),
        ensures
            e.wf(),
            e.dag_view() == dag,
            e.config_view() == config,
            e.validators_view() == Map::<Seq<char>, u64>::empty().insert(local_node@, 1),
            e.total_power_view() == 1,
            e.local_view() == local_node@,
            e.aggregator_view().quorum_view() == config.quorum,
            e.aggregator_view().quorum_weight_view() == config.min_total_voting_power as u128,
            e.aggregator_view().threshold_view() == config.threshold_bps,
            e.aggregator_view().tallies_view().dom().len() == 0,
    {
        let aggregator = VoteAggregator::with_weighted_quorum(
            config.quorum,
            config.min_total_voting_power as u128,
            config.threshold_bps,
        );
        let mut validators = amount_table_new();
        amount_table_insert(&mut validators, String::from_str(local_node.as_str()), 1);
        proof {
            assert(amount_table(validators) =~= Map::<Seq<char>, u64>::empty().insert(local_node@, 1));
        }
        ConsensusEngine { dag, aggregator, config, validators, total_voting_power: 1, local_node }
    }

    /// The DAG the engine votes over.
    pub fn dag(&self) -> (d: &DagGraph)
        ensures
            *d == self.dag_view(),
    {
        &self.dag
    }

    /// The DAG, for changes made through it; nothing else of the engine changes.
    pub fn dag_mut(&mut self) -> (d: &mut DagGraph)
        ensures
            *d == old(self).dag_view(),
            final(self).dag_view() == *final(d),
            final(self).aggregator_view() == old(self).aggregator_view(),
            final(self).config_view() == old(self).config_view(),
            final(self).validators_view() == old(self).validators_view(),
            final(self).total_power_view() == old(self).total_power_view(),
            final(self).local_view() == old(self).local_view(),
    {
        &mut self.dag
    }

    /// The vote aggregator.
    pub fn aggregator(&self) -> (a: &VoteAggregator)
        ensures
            *a == self.aggregator_view(),
    {
        &self.aggregator
    }

    /// The local node's vote on a transaction: accept exactly when the local DAG has it.
    pub fn local_vote(&self, tx_hash: &TransactionHash) -> (v: Vote)
        ensures
            v.voter@ == self.local_view(),
            v.tx_hash == *tx_hash,
            v.accept == self.dag_view().nodes_view().contains_key(tx_hash@),
    {
        let accept = self.dag.contains(tx_hash);
        Vote { voter: self.local_node.clone(), tx_hash: *tx_hash, accept, timestamp: now_ms() }
    }

    /// Process a vote at time `now` (ms): a vote that is too old, from an unknown
    /// validator, or from one below the minimum voting power is ignored; otherwise
    /// it is recorded with the validator's power, the vertex's status follows the
    /// outcome, and a decided transaction's tally is dropped and its finality returned.
    pub fn receive_vote_at(&mut self, vote: Vote, now: u64) -> (ev: Option<ConsensusEvent>)
        requires
            old(self).wf(),
            vote_power(old(self).validators_view(), old(self).config_view(), vote, now) matches Some(p)
                ==> vote_fits(old(self).aggregator_view().tally_of(vote.tx_hash@), vote.accept, p),
        ensures
            final(self).wf(),
            final(self).validators_view() == old(self).validators_view(),
            final(self).config_view() == old(self).config_view(),
            final(self).total_power_view() == old(self).total_power_view(),
            final(self).local_view() == old(self).local_view(),
            final(self).dag_view().ledger() == old(self).dag_view().ledger(),
            vote_power(old(self).validators_view(), old(self).config_view(), vote, now) is None ==> ev is None
                && final(self).dag_view() == old(self).dag_view() && final(self).aggregator_view() == old(
                self,
            ).aggregator_view(),
            vote_power(old(self).validators_view(), old(self).config_view(), vote, now) matches Some(p) ==> {
                let agg = old(self).aggregator_view();
                let t = agg.tally_of(vote.tx_hash@);
                let t2 = if t.voters.contains(vote.voter@) {
                    t
                } else {
                    crate::vote::with_vote(t, vote.voter@, vote.accept, p)
                };
                let o = agg.decide(t2);
                &&& final(self).dag_view().nodes_view() == with_status(
                    old(self).dag_view().nodes_view(),
                    vote.tx_hash@,
                    status_of(o),
                )
                &&& o == VoteOutcome::Pending ==> ev is None && final(self).aggregator_view().tallies_view()
                    == agg.tallies_view().insert(vote.tx_hash@, t2)
                &&& o != VoteOutcome::Pending ==> ev == Some(
                    ConsensusEvent::Finalized { tx_hash: vote.tx_hash, accepted: o == VoteOutcome::Accepted },
                ) && final(self).aggregator_view().tallies_view() == agg.tallies_view().remove(vote.tx_hash@)
            },
    {
        let age = if now >= vote.timestamp { now - vote.timestamp } else { 0 };
        if age > self.config.vote_max_age_ms {
            return None;
        }
        let voting_power = match amount_table_get(&self.validators, vote.voter.as_str()) {
            Some(v) => v,
            None => return None,
        };
        if voting_power < self.config.min_validator_voting_power {
            return None;
        }
        let tx_hash = vote.tx_hash;
        let outcome = self.aggregator.record_vote_weighted(vote, voting_power);
        match outcome {
            VoteOutcome::Accepted => {
                self.dag.set_status(&tx_hash, TransactionStatus::Confirmed);
                self.aggregator.finalize(&tx_hash);
                Some(ConsensusEvent::Finalized { tx_hash, accepted: true })
            },
            VoteOutcome::Rejected => {
                self.dag.set_status(&tx_hash, TransactionStatus::Rejected);
                self.aggregator.finalize(&tx_hash);
                Some(ConsensusEvent::Finalized { tx_hash, accepted: false })
            },
            VoteOutcome::Pending => {
                self.dag.set_status(&tx_hash, TransactionStatus::Voting);
                None
            },
        }
    }

    /// Process an incoming vote at the current time (see `receive_vote_at`).
    pub fn receive_vote(&mut self, vote: Vote) -> (ev: Option<ConsensusEvent>)
        requires
            old(self).wf(),
            old(self).validators_view().contains_key(vote.voter@) ==> vote_fits(
                old(self).aggregator_view().tally_of(vote.tx_hash@),
                vote.accept,
                old(self).validators_view()[vote.voter@],
            ),
        ensures
            final(self).wf(),
            final(self).validators_view() == old(self).validators_view(),
            final(self).dag_view().ledger() == old(self).dag_view().ledger(),
            exists|now: u64|
                #[trigger] vote_applied(
                    *old(self),
                    *final(self),
                    vote.voter@,
                    vote.tx_hash,
                    vote.accept,
                    vote_power(old(self).validators_view(), old(self).config_view(), vote, now),
                    ev,
                ),
    {
        let now = now_ms();
        let ev = self.receive_vote_at(vote, now);
        assert(vote_applied(
            *old(self),
            *self,
            vote.voter@,
            vote.tx_hash,
            vote.accept,
            vote_power(old(self).validators_view(), old(self).config_view(), vote, now),
            ev,
        ));
        ev
    }

    /// The configuration.
    pub fn config(&self) -> (c: &ConsensusConfig)
        ensures
            *c == self.config_view(),
    {
        &self.config
    }

    /// The number of transactions being voted on.
    pub fn pending_votes(&self) -> (n: usize)
        ensures
            n == self.aggregator_view().tallies_view().dom().len(),
    {
        self.aggregator.pending_count()
    }

    /// Register or update a validator (power at least 1); the total moves by the
    /// difference, wrapping as the atomic counter does.
    pub fn register_validator(&mut self, node_id: NodeId, voting_power: u64)
        ensures
            ({
                let p = if voting_power == 0 { 1u64 } else { voting_power };
                let previous = amount_of(old(self).validators_view(), node_id@);
                &&& final(self).validators_view() == old(self).validators_view().insert(node_id@, p)
                &&& final(self).total_power_view() == vstd::wrapping::u64_specs::wrapping_add(
                    vstd::wrapping::u64_specs::wrapping_sub(old(self).total_power_view(), previous),
                    p,
                )
            }),
            final(self).dag_view() == old(self).dag_view(),
            final(self).aggregator_view() == old(self).aggregator_view(),
            final(self).config_view() == old(self).config_view(),
            final(self).local_view() == old(self).local_view(),
    {
        let p = if voting_power == 0 { 1 } else { voting_power };
        let previous = match amount_table_get(&self.validators, node_id.as_str()) {
            Some(v) => v,
            None => 0,
        };
        amount_table_insert(&mut self.validators, String::from_str(node_id.as_str()), p);
        self.total_voting_power = self.total_voting_power.wrapping_sub(previous).wrapping_add(p);
    }

    /// Replace the validator set (powers at least 1, later duplicates replacing
    /// earlier ones); the local node is kept with power 1 if absent. The total is
    /// the saturating sum of the listed powers (plus 1 for the local node if added).
    pub fn set_validator_set(&mut self, validators: &[(NodeId, u64)])
        ensures
            final(self).validators_view() == with_local(
                listed_powers(validators@, validators@.len() as int),
                old(self).local_view(),
            ),
            final(self).total_power_view() == (if listed_powers(validators@, validators@.len() as int).contains_key(
                old(self).local_view(),
            ) {
                listed_total(validators@, validators@.len() as int)
            } else {
                sat_u64_add(listed_total(validators@, validators@.len() as int), 1)
            }),
            final(self).dag_view() == old(self).dag_view(),
            final(self).aggregator_view() == old(self).aggregator_view(),
            final(self).config_view() == old(self).config_view(),
            final(self).local_view() == old(self).local_view(),
    {
        amount_table_clear(&mut self.validators);
        let mut total: u64 = 0;
        let mut i: usize = 0;
        while i < validators.len()
            invariant
                i <= validators@.len(),
                amount_table(self.validators) == listed_powers(validators@, i as int),
                total == listed_total(validators@, i as int),
                self.dag == old(self).dag,
                self.aggregator == old(self).aggregator,
                self.config == old(self).config,
                self.local_node@ == old(self).local_node@,
            decreases validators@.len() - i,
        {
            let p = if validators[i].1 == 0 { 1 } else { validators[i].1 };
            total = total.saturating_add(p);
            amount_table_insert(&mut self.validators, String::from_str(validators[i].0.as_str()), p);
            i = i + 1;
        }
        if amount_table_get(&self.validators, self.local_node.as_str()).is_none() {
            total = total.saturating_add(1);
            amount_table_insert(&mut self.validators, String::from_str(self.local_node.as_str()), 1);
        }
        self.total_voting_power = total;
    }

    /// The number of validators.
    pub fn validator_count(&self) -> (n: usize)
        ensures
            n == self.validators_view().dom().len(),
    {
        amount_table_len(&self.validators)
    }

    /// The recorded total voting power.
    pub fn total_voting_power(&self) -> (p: u64)
        ensures
            p == self.total_power_view(),
    {
        self.total_voting_power
    }

    /// Whether a remote vote can be counted without its tally's arithmetic leaving
    /// its integer types: always for a voter that is not a validator (its vote is
    /// ignored), else when `vote_fits` holds with the validator's power.
    pub fn remote_vote_fits(&self, tx_hash: &TransactionHash, voter: &NodeId, accept: bool) -> (b: bool)
        ensures
            b == (self.validators_view().contains_key(voter@) ==> vote_fits(
                self.aggregator_view().tally_of(tx_hash@),
                accept,
                self.validators_view()[voter@],
            )),
    {
        match amount_table_get(&self.validators, voter.as_str()) {
            None => true,
            Some(power) => self.aggregator.vote_would_fit(tx_hash, accept, power),
        }
    }

    /// Process a vote from a remote peer, stamped with the current time.
    pub fn process_remote_vote(&mut self, tx_hash: &TransactionHash, voter: &NodeId, accept: bool) -> (ev:
        Option<ConsensusEvent>)
        requires
            old(self).wf(),
            old(self).validators_view().contains_key(voter@) ==> vote_fits(
                old(self).aggregator_view().tally_of(tx_hash@),
                accept,
                old(self).validators_view()[voter@],
            ),
        ensures
            final(self).wf(),
            final(self).validators_view() == old(self).validators_view(),
            final(self).dag_view().ledger() == old(self).dag_view().ledger(),
            vote_applied(
                *old(self),
                *final(self),
                voter@,
                *tx_hash,
                accept,
                remote_power(old(self).validators_view(), old(self).config_view(), voter@),
                ev,
            ),
    {
        let now = now_ms();
        let vote = Vote { voter: voter.clone(), tx_hash: *tx_hash, accept, timestamp: now };
        assert(vote_power(self.validators_view(), self.config_view(), vote, now) == remote_power(
            self.validators_view(),
            self.config_view(),
            voter@,
        ));
        self.receive_vote_at(vote, now)
    }
}

/// `a + b` saturated at `u64::MAX`.
pub open spec fn sat_u64_add(a: u64, b: u64) -> u64 {
    if a + b > u64::MAX {
        u64::MAX
    } else {
        (a + b) as u64
    }
}

/// The validator table built from the first `n` listed validators (powers at least 1).
pub open spec fn listed_powers(v: Seq<(NodeId, u64)>, n: int) -> Map<Seq<char>, u64>
    decreases n,
{
    if n <= 0 {
        Map::empty()
    } else {
        listed_powers(v, n - 1).insert(v[n - 1].0@, if v[n - 1].1 == 0 { 1 } else { v[n - 1].1 })
    }
}

/// The saturating total of the first `n` listed powers (each at least 1).
pub open spec fn listed_total(v: Seq<(NodeId, u64)>, n: int) -> u64
    decreases n,
{
    if n <= 0 {
        0
    } else {
        sat_u64_add(listed_total(v, n - 1), if v[n - 1].1 == 0 { 1 } else { v[n - 1].1 })
    }
}

/// A validator table with the local node added at power 1 if it is absent.
pub open spec fn with_local(m: Map<Seq<char>, u64>, local: Seq<char>) -> Map<Seq<char>, u64> {
    if m.contains_key(local) {
        m
    } else {
        m.insert(local, 1)
    }
}

} // verus!
