use relyo::conflict::ConflictDetector;
use relyo::engine::{ConsensusConfig, ConsensusEngine, ConsensusEvent};
use relyo::graph::DagGraph;
use relyo::primitives::now_ms;
use relyo::state::LedgerState;
use relyo::tips::TipSelector;
use relyo::transaction::TransactionHash;
use relyo::types::NodeId;
use relyo::vote::{Vote, VoteAggregator, VoteOutcome};

fn make_vote(node_id: u64, tx: &TransactionHash, accept: bool) -> Vote {
    Vote { voter: NodeId::new(&format!("node-{}", node_id)), tx_hash: tx.clone(), accept, timestamp: now_ms() }
}

fn empty_dag() -> DagGraph {
    DagGraph::new(LedgerState::new(), TipSelector::new(), ConflictDetector::new())
}

#[test]
fn test_accept_consensus() {
    let mut agg = VoteAggregator::new(5, 6667);
    let tx = TransactionHash([42u8; 32]);
    for i in 0..4 {
        let outcome = agg.record_vote(make_vote(i, &tx, true));
        assert_eq!(outcome, VoteOutcome::Pending);
    }
    let outcome = agg.record_vote(make_vote(4, &tx, false));
    assert_eq!(outcome, VoteOutcome::Accepted);
}

#[test]
fn test_reject_consensus() {
    let mut agg = VoteAggregator::new(5, 6667);
    let tx = TransactionHash([42u8; 32]);
    agg.record_vote(make_vote(0, &tx, true));
    for i in 1..5 {
        agg.record_vote(make_vote(i, &tx, false));
    }
    let outcome = agg.outcome(&tx);
    assert_eq!(outcome, VoteOutcome::Rejected);
}

#[test]
fn test_no_double_vote() {
    let mut agg = VoteAggregator::new(3, 6667);
    let tx = TransactionHash([42u8; 32]);
    agg.record_vote(make_vote(0, &tx, true));
    agg.record_vote(make_vote(0, &tx, false));
    let (accept, reject) = agg.vote_counts(&tx);
    assert_eq!(accept, 1);
    assert_eq!(reject, 0);
}

#[test]
fn test_weighted_quorum() {
    let mut agg = VoteAggregator::with_weighted_quorum(2, 10, 6667);
    let tx = TransactionHash([7u8; 32]);
    let out1 = agg.record_vote_weighted(make_vote(1, &tx, true), 3);
    let out2 = agg.record_vote_weighted(make_vote(2, &tx, true), 3);
    assert_eq!(out1, VoteOutcome::Pending);
    assert_eq!(out2, VoteOutcome::Pending);
    let out3 = agg.record_vote_weighted(make_vote(3, &tx, true), 5);
    assert_eq!(out3, VoteOutcome::Accepted);
}

#[test]
fn finalize_forgets_a_tally() {
    let mut agg = VoteAggregator::new(2, 6667);
    let tx = TransactionHash([1u8; 32]);
    agg.record_vote(make_vote(0, &tx, true));
    assert_eq!(agg.pending_count(), 1);
    assert_eq!(agg.outcome(&tx), VoteOutcome::Pending);
    agg.finalize(&tx);
    assert_eq!(agg.pending_count(), 0);
    assert_eq!(agg.vote_counts(&tx), (0, 0));
}

#[test]
fn test_engine_creation() {
    let engine = ConsensusEngine::new(empty_dag(), ConsensusConfig::default(), NodeId::new("test-node"));
    assert_eq!(engine.pending_votes(), 0);
    assert_eq!(engine.validator_count(), 1);
    assert!(engine.total_voting_power() >= 1);
}

#[test]
fn engine_counts_only_known_validators() {
    let config = ConsensusConfig { quorum: 1, min_total_voting_power: 1, ..ConsensusConfig::default() };
    let mut engine = ConsensusEngine::new(empty_dag(), config, NodeId::new("local"));
    let tx = TransactionHash([3u8; 32]);
    let stranger = Vote { voter: NodeId::new("stranger"), tx_hash: tx, accept: true, timestamp: 1_000 };
    assert!(engine.receive_vote_at(stranger, 1_000).is_none());
    assert_eq!(engine.pending_votes(), 0);
    engine.register_validator(NodeId::new("v1"), 5);
    assert_eq!(engine.validator_count(), 2);
    assert_eq!(engine.total_voting_power(), 6);
    let stale = Vote { voter: NodeId::new("v1"), tx_hash: tx, accept: true, timestamp: 0 };
    assert!(engine.receive_vote_at(stale, 100_000).is_none());
    let fresh = Vote { voter: NodeId::new("v1"), tx_hash: tx, accept: true, timestamp: 1_000 };
    match engine.receive_vote_at(fresh, 1_000) {
        Some(ConsensusEvent::Finalized { tx_hash, accepted }) => {
            assert_eq!(tx_hash, tx);
            assert!(accepted);
        }
        None => panic!("expected finality"),
    }
    assert_eq!(engine.pending_votes(), 0);
}

#[test]
fn local_vote_accepts_known_transactions_only() {
    let engine = ConsensusEngine::new(empty_dag(), ConsensusConfig::default(), NodeId::new("me"));
    let v = engine.local_vote(&TransactionHash([9u8; 32]));
    assert!(!v.accept);
    assert_eq!(v.voter.as_str(), "me");
}
