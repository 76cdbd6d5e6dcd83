//! Vote aggregation: one vote per node per transaction, weighted by voting power,
//! decided once a count quorum and a weight quorum are reached.
use vstd::prelude::*;
use dashmap::DashMap;
use std::collections::hash_map::RandomState;
use crate::dag_tables::{
    tally_table, tally_table_get, tally_table_insert, tally_table_len, tally_table_new,
    tally_table_remove,
};
use crate::transaction::TransactionHash;
use crate::types::NodeId;

verus! {

/// A vote cast by a node on a transaction's validity.
#[derive(Debug, Clone)]
pub struct Vote {
    /// The node casting the vote.
    pub voter: NodeId,
    /// The transaction voted on.
    pub tx_hash: TransactionHash,
    /// Whether the voter considers the transaction valid.
    pub accept: bool,
    /// When the vote was cast (ms since the epoch).
    pub timestamp: u64,
}

/// The outcome of aggregating the votes on a transaction.
#[derive(Debug, Clone, Copy, PartialEq, Eq, Structural)]
pub enum VoteOutcome {
    /// Not enough votes yet.
    Pending,
    /// The accepting share reached the threshold.
    Accepted,
    /// The accepting share fell short of the threshold.
    Rejected,
}

/// The votes on one transaction.
#[derive(Debug)]
pub struct VoteTally {
    accept: u64,
    reject: u64,
    accept_weight: u128,
    reject_weight: u128,
    voters: Vec<NodeId>,
}

/// What a tally holds.
pub struct TallyView {
    pub accept: u64,
    pub reject: u64,
    pub accept_weight: u128,
    pub reject_weight: u128,
    pub voters: Seq<Seq<char>>,
}

impl View for VoteTally {
    type V = TallyView;

    closed spec fn view(&self) -> TallyView {
        TallyView {
            accept: self.accept,
            reject: self.reject,
            accept_weight: self.accept_weight,
            reject_weight: self.reject_weight,
            voters: self.voters@.map_values(|n: NodeId| n@),
        }
    }
}

impl Clone for VoteTally {
    fn clone(&self) -> (c: Self)
        ensures
            c@ == self@,
    {
        let mut voters: Vec<NodeId> = Vec::new();
        let mut i: usize = 0;
        while i < self.voters.len()
            invariant
                i <= self.voters@.len(),
                voters@.len() == i,
                forall|j: int| 0 <= j < i ==> #[trigger] voters@[j]@ == self.voters@[j]@,
            decreases self.voters@.len() - i,
        {
            let c = self.voters[i].clone();
            voters.push(c);
            i = i + 1;
        }
        assert(voters@.map_values(|n: NodeId| n@) =~= self.voters@.map_values(|n: NodeId| n@));
        VoteTally {
            accept: self.accept,
            reject: self.reject,
            accept_weight: self.accept_weight,
            reject_weight: self.reject_weight,
            voters,
        }
    }
}

/// The empty tally.
pub open spec fn empty_tally() -> TallyView {
    TallyView { accept: 0, reject: 0, accept_weight: 0, reject_weight: 0, voters: Seq::empty() }
}

/// A tally's counts match its voters, and no voter is listed twice.
pub open spec fn tally_wf(t: TallyView) -> bool {
    &&& t.accept + t.reject == t.voters.len()
    &&& t.voters.no_duplicates()
}

/// The arithmetic of evaluating a tally stays within its integer types.
pub open spec fn tally_fits(t: TallyView) -> bool {
    &&& t.accept + t.reject <= u64::MAX
    &&& t.accept_weight * 10_000 <= u128::MAX
}

/// Recording a vote keeps the arithmetic of the tally within its integer types.
pub open spec fn vote_fits(t: TallyView, accept: bool, power: u64) -> bool {
    &&& t.accept + t.reject < u64::MAX
    &&& tally_fits(with_vote(t, Seq::empty(), accept, power))
}

/// `a + b` saturated at `u128::MAX`.
pub open spec fn sat_add_u128(a: u128, b: u128) -> u128 {
    if a + b > u128::MAX {
        u128::MAX
    } else {
        (a + b) as u128
    }
}

/// The tally after a new voter's vote with the given power (at least 1).
pub open spec fn with_vote(t: TallyView, voter: Seq<char>, accept: bool, power: u64) -> TallyView {
    let p = (if power == 0 { 1 } else { power }) as u128;
    if accept {
        TallyView {
            accept: (t.accept + 1) as u64,
            accept_weight: sat_add_u128(t.accept_weight, p),
            voters: t.voters.push(voter),
            ..t
        }
    } else {
        TallyView {
            reject: (t.reject + 1) as u64,
            reject_weight: sat_add_u128(t.reject_weight, p),
            voters: t.voters.push(voter),
            ..t
        }
    }
}

/// The outcome of a tally: pending below either quorum, else accepted when the
/// accepting weight (in basis points of the total, rounded down) reaches the threshold.
pub open spec fn outcome_of(t: TallyView, quorum: u64, quorum_weight: u128, threshold_bps: u64) -> VoteOutcome {
    let total_weight = sat_add_u128(t.accept_weight, t.reject_weight);
    if t.accept + t.reject < quorum {
        VoteOutcome::Pending
    } else if total_weight < quorum_weight {
        VoteOutcome::Pending
    } else {
        let accept_bps: int = if total_weight == 0 { 0 } else { t.accept_weight * 10_000 / (total_weight as int) };
        if accept_bps >= threshold_bps {
            VoteOutcome::Accepted
        } else {
            VoteOutcome::Rejected
        }
    }
}

/// Aggregates the votes of many nodes on many transactions.
pub struct VoteAggregator {
    tallies: DashMap<TransactionHash, VoteTally, RandomState>,
    quorum: u64,
    quorum_weight: u128,
    threshold_bps: u64,
}

impl VoteAggregator {
    /// The tallies by transaction hash.
    pub closed spec fn tallies_view(&self) -> Map<Seq<u8>, TallyView> {
        tally_table(self.tallies)
    }

    /// Votes required before deciding.
    pub closed spec fn quorum_view(&self) -> u64 {
        self.quorum
    }

    /// Voting power required before deciding.
    pub closed spec fn quorum_weight_view(&self) -> u128 {
        self.quorum_weight
    }

    /// Accept share required, in basis points.
    pub closed spec fn threshold_view(&self) -> u64 {
        self.threshold_bps
    }

    /// Every tally's counts match its voters.
    pub open spec fn wf(&self) -> bool {
        forall|h: Seq<u8>| #[trigger] self.tallies_view().contains_key(h) ==> tally_wf(self.tallies_view()[h])
    }

    /// The outcome of a tally under this aggregator's quorums and threshold.
    pub open spec fn decide(&self, t: TallyView) -> VoteOutcome {
        outcome_of(t, self.quorum_view(), self.quorum_weight_view(), self.threshold_view())
    }

    /// The current tally of a transaction (empty if none).
    pub open spec fn tally_of(&self, h: Seq<u8>) -> TallyView {
        if self.tallies_view().contains_key(h) {
            self.tallies_view()[h]
        } else {
            empty_tally()
        }
    }

    /// Whether recording a vote on `tx_hash` with the given power keeps its
    /// tally's arithmetic within its integer types (see `vote_fits`).
    pub fn vote_would_fit(&self, tx_hash: &TransactionHash, accept: bool, power: u64) -> (b: bool)
        ensures
            b == vote_fits(self.tally_of(tx_hash@), accept, power),
    {
        let (acc, rej, aw): (u64, u64, u128) = match tally_table_get(&self.tallies, tx_hash) {
            Some(t) => (t.accept, t.reject, t.accept_weight),
            None => (0, 0, 0),
        };
        if rej >= u64::MAX - acc {
            return false;
        }
        let p: u128 = if power == 0 { 1 } else { power as u128 };
        let new_aw: u128 = if accept {
            match aw.checked_add(p) {
                Some(v) => v,
                None => u128::MAX,
            }
        } else {
            aw
        };
        new_aw <= u128::MAX / 10_000
    }

    /// An aggregator whose weight quorum equals its count quorum.
    pub fn new(quorum: u64, threshold_bps: u64) -> (a: Self)
        ensures
            a.wf(),
            a.tallies_view().dom().len() == 0 && a.tallies_view().dom().finite(),
            a.quorum_view() == quorum,
            a.quorum_weight_view() == quorum as u128,
            a.threshold_view() == threshold_bps,
    {
        Self::with_weighted_quorum(quorum, quorum as u128, threshold_bps)
    }

    /// An aggregator with a count quorum and a voting-power quorum.
    pub fn with_weighted_quorum(quorum: u64, quorum_weight: u128, threshold_bps: u64) -> (a: Self)
        ensures
            a.wf(),
            a.tallies_view().dom().len() == 0 && a.tallies_view().dom().finite(),
            a.quorum_view() == quorum,
            a.quorum_weight_view() == quorum_weight,
            a.threshold_view() == threshold_bps,
    {
        VoteAggregator { tallies: tally_table_new(), quorum, quorum_weight, threshold_bps }
    }

    /// Record a vote with voting power 1 and return the outcome.
    pub fn record_vote(&mut self, vote: Vote) -> (o: VoteOutcome)
        requires
            old(self).wf(),
            vote_fits(old(self).tally_of(vote.tx_hash@), vote.accept, 1),
        ensures
            final(self).wf(),
            ({
                let t = old(self).tally_of(vote.tx_hash@);
                let t2 = if t.voters.contains(vote.voter@) { t } else { with_vote(t, vote.voter@, vote.accept, 1) };
                &&& final(self).tallies_view() == old(self).tallies_view().insert(vote.tx_hash@, t2)
                &&& o == old(self).decide(t2)
            }),
            final(self).quorum_view() == old(self).quorum_view(),
            final(self).quorum_weight_view() == old(self).quorum_weight_view(),
            final(self).threshold_view() == old(self).threshold_view(),
    {
        self.record_vote_weighted(vote, 1)
    }

    /// Record a vote with a voting power (at least 1 is counted) and return the
    /// outcome. A second vote by the same node on the same transaction is ignored.
    pub fn record_vote_weighted(&mut self, vote: Vote, voting_power: u64) -> (o: VoteOutcome)
        requires
            old(self).wf(),
            vote_fits(old(self).tally_of(vote.tx_hash@), vote.accept, voting_power),
        ensures
            final(self).wf(),
            ({
                let t = old(self).tally_of(vote.tx_hash@);
                let t2 = if t.voters.contains(vote.voter@) {
                    t
                } else {
                    with_vote(t, vote.voter@, vote.accept, voting_power)
                };
                &&& final(self).tallies_view() == old(self).tallies_view().insert(vote.tx_hash@, t2)
                &&& o == old(self).decide(t2)
            }),
            final(self).quorum_view() == old(self).quorum_view(),
            final(self).quorum_weight_view() == old(self).quorum_weight_view(),
            final(self).threshold_view() == old(self).threshold_view(),
    {
        let mut tally = match tally_table_get(&self.tallies, &vote.tx_hash) {
            Some(t) => t,
            None => {
                let t = VoteTally { accept: 0, reject: 0, accept_weight: 0, reject_weight: 0, voters: Vec::new() };
                assert(t@.voters =~= Seq::<Seq<char>>::empty());
                t
            },
        };
        let ghost t0 = tally@;
        proof {
            if !self.tallies_view().contains_key(vote.tx_hash@) {
                assert(t0 == empty_tally());
            }
            assert(tally_fits(t0));
            assert(tally_fits(with_vote(t0, vote.voter@, vote.accept, voting_power)));
        }
        if tally.has_voter(&vote.voter) {
            tally_table_insert(&mut self.tallies, vote.tx_hash, tally.clone());
            proof {
                self.lemma_insert_keeps_wf(old(self).tallies_view(), vote.tx_hash@, t0);
            }
            return self.evaluate(&tally);
        }
        let power: u128 = if voting_power == 0 { 1 } else { voting_power as u128 };
        let ghost before_voters = tally.voters@;
        tally.voters.push(vote.voter.clone());
        if vote.accept {
            tally.accept = tally.accept + 1;
            tally.accept_weight = tally.accept_weight.saturating_add(power);
        } else {
            tally.reject = tally.reject + 1;
            tally.reject_weight = tally.reject_weight.saturating_add(power);
        }
        proof {
            assert(tally.voters@.map_values(|n: NodeId| n@) =~= before_voters.map_values(|n: NodeId| n@).push(
                vote.voter@,
            ));
            assert(tally@ == with_vote(t0, vote.voter@, vote.accept, voting_power));
            assert(tally_wf(tally@)) by {
                let vs = tally@.voters;
                assert forall|a: int, b: int| 0 <= a < vs.len() && 0 <= b < vs.len() && a != b implies vs[a]
                    != vs[b] by {
                    if a == vs.len() - 1 {
                        assert(t0.voters[b] == vs[b]);
                    } else if b == vs.len() - 1 {
                        assert(t0.voters[a] == vs[a]);
                    } else {
                        assert(t0.voters[a] == vs[a] && t0.voters[b] == vs[b]);
                    }
                }
            }
        }
        let result = self.evaluate(&tally);
        let ghost tv = tally@;
        tally_table_insert(&mut self.tallies, vote.tx_hash, tally);
        proof {
            self.lemma_insert_keeps_wf(old(self).tallies_view(), vote.tx_hash@, tv);
        }
        result
    }

    proof fn lemma_insert_keeps_wf(&self, before: Map<Seq<u8>, TallyView>, h: Seq<u8>, t: TallyView)
        requires
            forall|k: Seq<u8>| #[trigger] before.contains_key(k) ==> tally_wf(before[k]),
            tally_wf(t),
            self.tallies_view() == before.insert(h, t),
        ensures
            self.wf(),
    {
        assert forall|k: Seq<u8>| #[trigger] self.tallies_view().contains_key(k) implies tally_wf(
            self.tallies_view()[k],
        ) by {
            if k != h {
                assert(before.contains_key(k));
            }
        }
    }

    /// The outcome of a tally under the quorums and the threshold.
    fn evaluate(&self, tally: &VoteTally) -> (o: VoteOutcome)
        requires
            tally_fits(tally@),
        ensures
            o == self.decide(tally@),
    {
        let total_votes = tally.accept + tally.reject;
        if total_votes < self.quorum {
            return VoteOutcome::Pending;
        }
        let total_weight = tally.accept_weight.saturating_add(tally.reject_weight);
        if total_weight < self.quorum_weight {
            return VoteOutcome::Pending;
        }
        let accept_bps: u128 = if total_weight == 0 {
            0
        } else {
            tally.accept_weight * 10_000 / total_weight
        };
        if accept_bps >= self.threshold_bps as u128 {
            VoteOutcome::Accepted
        } else {
            VoteOutcome::Rejected
        }
    }

    /// The current outcome of a transaction without recording a vote.
    pub fn outcome(&self, tx_hash: &TransactionHash) -> (o: VoteOutcome)
        requires
            tally_fits(self.tally_of(tx_hash@)),
        ensures
            !self.tallies_view().contains_key(tx_hash@) ==> o == VoteOutcome::Pending,
            self.tallies_view().contains_key(tx_hash@) ==> o == self.decide(self.tallies_view()[tx_hash@]),
    {
        match tally_table_get(&self.tallies, tx_hash) {
            Some(t) => self.evaluate(&t),
            None => VoteOutcome::Pending,
        }
    }

    /// The (accept, reject) vote counts of a transaction.
    pub fn vote_counts(&self, tx_hash: &TransactionHash) -> (c: (u64, u64))
        ensures
            c == (self.tally_of(tx_hash@).accept, self.tally_of(tx_hash@).reject),
    {
        match tally_table_get(&self.tallies, tx_hash) {
            Some(t) => (t.accept, t.reject),
            None => (0, 0),
        }
    }

    /// Drop the tally of a finalized transaction.
    pub fn finalize(&mut self, tx_hash: &TransactionHash)
        requires
            old(self).wf(),
        ensures
            final(self).wf(),
            final(self).tallies_view() == old(self).tallies_view().remove(tx_hash@),
            final(self).quorum_view() == old(self).quorum_view(),
            final(self).quorum_weight_view() == old(self).quorum_weight_view(),
            final(self).threshold_view() == old(self).threshold_view(),
    {
        tally_table_remove(&mut self.tallies, tx_hash);
        proof {
            assert forall|k: Seq<u8>| #[trigger] self.tallies_view().contains_key(k) implies tally_wf(
                self.tallies_view()[k],
            ) by {
                assert(old(self).tallies_view().contains_key(k));
            }
        }
    }

    /// The number of transactions being voted on.
    pub fn pending_count(&self) -> (n: usize)
        ensures
            n == self.tallies_view().dom().len(),
    {
        tally_table_len(&self.tallies)
    }
}

impl VoteTally {
    fn has_voter(&self, voter: &NodeId) -> (b: bool)
        ensures
            b == self@.voters.contains(voter@),
    {
        let mut i: usize = 0;
        while i < self.voters.len()
            invariant
                i <= self.voters@.len(),
                forall|j: int| 0 <= j < i ==> self@.voters[j] != voter@,
            decreases self.voters@.len() - i,
        {
            if self.voters[i].same(voter) {
                assert(self@.voters[i as int] == voter@);
                return true;
            }
            i = i + 1;
        }
        false
    }
}

/// A node's second vote on a transaction changes nothing: its first vote stands.
pub proof fn law_no_double_vote(t: TallyView, voter: Seq<char>, accept: bool, power: u64)
    requires
        t.voters.contains(voter),
    ensures
        (if t.voters.contains(voter) { t } else { with_vote(t, voter, accept, power) }) == t,
{
}

/// Recording a new voter keeps a tally's counts equal to its number of voters.
pub proof fn law_counts_match_voters(t: TallyView, voter: Seq<char>, accept: bool, power: u64)
    requires
        tally_wf(t),
        !t.voters.contains(voter),
        t.accept + t.reject < u64::MAX,
    ensures
        tally_wf(with_vote(t, voter, accept, power)),
{
    let t2 = with_vote(t, voter, accept, power);
    assert forall|a: int, b: int| 0 <= a < t2.voters.len() && 0 <= b < t2.voters.len() && a != b implies t2.voters[a]
        != t2.voters[b] by {
        if a == t.voters.len() {
            assert(t.voters[b] == t2.voters[b]);
        } else if b == t.voters.len() {
            assert(t.voters[a] == t2.voters[a]);
        } else {
            assert(t.voters[a] == t2.voters[a] && t.voters[b] == t2.voters[b]);
        }
    }
}

/// Below the vote-count quorum a transaction is never decided.
pub proof fn law_pending_below_quorum(t: TallyView, quorum: u64, quorum_weight: u128, threshold_bps: u64)
    requires
        t.accept + t.reject < quorum,
    ensures
        outcome_of(t, quorum, quorum_weight, threshold_bps) == VoteOutcome::Pending,
{
}

/// Once both quorums are met, all-accepting votes accept for any threshold up to 100%.
pub proof fn law_unanimous_accept(t: TallyView, quorum: u64, quorum_weight: u128, threshold_bps: u64)
    requires
        t.accept + t.reject >= quorum,
        t.reject_weight == 0,
        t.accept_weight > 0,
        t.accept_weight >= quorum_weight,
        threshold_bps <= 10_000,
    ensures
        outcome_of(t, quorum, quorum_weight, threshold_bps) == VoteOutcome::Accepted,
{
    assert(t.accept_weight * 10_000 / (t.accept_weight as int) == 10_000) by (nonlinear_arith)
        requires
            t.accept_weight > 0,
    ;
}

/// `x / d` reaches `k` exactly when `x` reaches `k * d`.
proof fn lemma_div_at_least(x: int, d: int, k: int)
    requires
        x >= 0,
        d > 0,
        k >= 0,
    ensures
        (x / d >= k) <==> (x >= k * d),
{
    let q = x / d;
    let r = x % d;
    vstd::arithmetic::div_mod::lemma_fundamental_div_mod(x, d);
    vstd::arithmetic::div_mod::lemma_mod_bound(x, d);
    assert(x == d * q + r);
    if q >= k {
        assert(d * q >= k * d) by (nonlinear_arith)
            requires
                q >= k,
                d > 0,
        ;
    } else {
        assert(d * q + d <= k * d) by (nonlinear_arith)
            requires
                q + 1 <= k,
                d > 0,
        ;
    }
}

/// Law: once a tally meets both quorums its outcome is decided by the weights
/// alone, whatever the vote counts: it is never pending, and it is accepted
/// exactly when the accepting weight, in basis points of the total weight, is at
/// least the threshold (with no weight at all, exactly when the threshold is 0).
pub proof fn law_weighted_outcome(t: TallyView, quorum: u64, quorum_weight: u128, threshold_bps: u64)
    requires
        t.accept + t.reject >= quorum,
        t.accept_weight + t.reject_weight <= u128::MAX,
        t.accept_weight + t.reject_weight >= quorum_weight,
    ensures
        outcome_of(t, quorum, quorum_weight, threshold_bps) != VoteOutcome::Pending,
        t.accept_weight + t.reject_weight > 0 ==> ((outcome_of(t, quorum, quorum_weight, threshold_bps)
            == VoteOutcome::Accepted) <==> t.accept_weight * 10_000 >= threshold_bps * (t.accept_weight
            + t.reject_weight)),
        t.accept_weight + t.reject_weight == 0 ==> ((outcome_of(t, quorum, quorum_weight, threshold_bps)
            == VoteOutcome::Accepted) <==> threshold_bps == 0),
{
    let total = t.accept_weight + t.reject_weight;
    if total > 0 {
        lemma_div_at_least(t.accept_weight * 10_000, total, threshold_bps as int);
    }
}

/// Law: the vote counts decide only whether the count quorum is met. Two tallies
/// that both meet it and carry the same accepting and rejecting weights have the
/// same outcome.
pub proof fn law_outcome_ignores_counts(
    t1: TallyView,
    t2: TallyView,
    quorum: u64,
    quorum_weight: u128,
    threshold_bps: u64,
)
    requires
        t1.accept + t1.reject >= quorum,
        t2.accept + t2.reject >= quorum,
        t1.accept_weight == t2.accept_weight,
        t1.reject_weight == t2.reject_weight,
    ensures
        outcome_of(t1, quorum, quorum_weight, threshold_bps) == outcome_of(t2, quorum, quorum_weight, threshold_bps),
{
}

} // verus!
