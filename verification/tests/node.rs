use relyo::address::Address;
use relyo::conflict::ConflictDetector;
use relyo::constants::{RLY_UNIT, TOTAL_SUPPLY};
use relyo::crypto::KeyPair;
use relyo::engine::ConsensusConfig;
use relyo::epochs::{epoch_at_depth, EPOCH_DEPTH, TOTAL_EPOCHS};
use relyo::error::RelyoError;
use relyo::graph::DagGraph;
use relyo::netconfig::VotePayload;
use relyo::node::{NodeAction, NodeEvent, RelyoNode};
use relyo::rate_limiter::RateLimiter;
use relyo::state::LedgerState;
use relyo::tips::TipSelector;
use relyo::token::relyo_config;
use relyo::transaction::{TransactionBuilder, TransactionHash, TransactionStatus, TransactionType};

fn default_node() -> RelyoNode {
    RelyoNode::new("relyo-node", ConsensusConfig::default(), 100_000, 100)
}

#[test]
fn test_epoch_depth_calc() {
    assert_eq!(epoch_at_depth(0), 0);
    assert_eq!(epoch_at_depth(99_999), 0);
    assert_eq!(epoch_at_depth(100_000), 1);
    assert_eq!(epoch_at_depth(250_000), 2);
}

#[test]
fn epoch_constants() {
    assert_eq!(EPOCH_DEPTH, 100_000);
    assert_eq!(TOTAL_EPOCHS, 800_000);
    assert_eq!(epoch_at_depth(u64::MAX), u64::MAX / 100_000);
}

#[test]
fn test_rate_limiter() {
    let mut limiter = RateLimiter::new(3);
    let kp = KeyPair::generate();
    let addr = Address::from_public_key(&kp.public_key);
    assert!(limiter.check(&addr));
    assert!(limiter.check(&addr));
    assert!(limiter.check(&addr));
    assert!(!limiter.check(&addr));
}

#[test]
fn rate_limiter_window_slides() {
    let mut limiter = RateLimiter::new(2);
    let a = Address::from_public_key(&KeyPair::generate().public_key);
    let b = Address::from_public_key(&KeyPair::generate().public_key);
    assert!(limiter.check_at(&a, 10_000));
    assert!(limiter.check_at(&a, 10_500));
    assert!(!limiter.check_at(&a, 10_999));
    assert!(limiter.check_at(&b, 10_999));
    assert!(limiter.check_at(&a, 11_000));
    assert!(!limiter.check_at(&a, 11_100));
    assert!(limiter.check_at(&a, 12_600));
    limiter.cleanup_at(20_000);
    assert!(limiter.check_at(&a, 20_000));
    assert!(limiter.check_at(&a, 20_000));
    assert!(!limiter.check_at(&a, 20_000));
}

#[test]
fn test_tx_propagation_and_ban() {
    let mut node = default_node();
    let keypair = KeyPair::generate();
    let sender = Address::from_public_key(&keypair.public_key);
    let receiver = Address::genesis();
    let tx = TransactionBuilder {
        sender,
        receiver,
        amount: 25_000_000_001 * RLY_UNIT,
        fee: 10_000_000,
        nonce: 1,
        parent_1: TransactionHash::zero(),
        parent_2: TransactionHash::zero(),
        data: vec![],
        tx_type: TransactionType::Genesis,
    }
    .sign(&keypair);

    let mut dag = DagGraph::new(LedgerState::new(), TipSelector::new(), ConflictDetector::new());
    match dag.insert(tx.clone()) {
        Err(RelyoError::SupplyCapExceeded(_)) => {}
        other => panic!("Expected SupplyCapExceeded! Got: {:?}", other),
    }
    match node.submit_transaction(tx) {
        Err(RelyoError::SupplyCapExceeded(_)) => {}
        other => panic!("Expected SupplyCapExceeded! Got: {:?}", other),
    }
}

#[test]
fn node_starts_empty_and_genesis_is_deterministic() {
    let mut a = default_node();
    let mut b = default_node();
    assert_eq!(a.dag_size(), 0);
    assert_eq!(a.mempool_size(), 0);
    assert_eq!(a.node_id().as_str(), "relyo-node");
    assert_eq!(a.node_name(), "relyo-node");
    a.init_genesis();
    b.init_genesis();
    assert_eq!(a.dag_size(), 1);
    let ta = a.dag().tips().all();
    let tb = b.dag().tips().all();
    assert_eq!(ta.len(), 1);
    assert_eq!(ta, tb);
    let g = a.dag().get(&ta[0]).unwrap();
    assert_eq!(g.status, TransactionStatus::Confirmed);
    assert_eq!(g.tx.amount, 0);
    assert_eq!(g.tx.data, b"Relyo Genesis: Let there be light".to_vec());
    assert_eq!(a.dag().state().total_circulating(), 0);
}

#[test]
fn submit_reports_rate_limit_and_supply_messages() {
    let mut node = RelyoNode::new("n", ConsensusConfig::default(), 10, 1);
    let kp = KeyPair::generate();
    let from = Address::from_public_key(&kp.public_key);
    let to = Address::from_public_key(&KeyPair::generate().public_key);
    let big = TransactionBuilder::new(from.clone(), to.clone(), TOTAL_SUPPLY + 1, relyo_config().base_fee, 1).sign(&kp);
    match node.submit_transaction_at(big, 5_000) {
        Err(RelyoError::SupplyCapExceeded(m)) => {
            assert_eq!(m, format!("supply cap exceeded: 0 + {} > {}", TOTAL_SUPPLY + 1, TOTAL_SUPPLY));
        }
        other => panic!("expected the supply cap, got {:?}", other),
    }
    let small = TransactionBuilder::new(from.clone(), to, 5, relyo_config().base_fee, 1).sign(&kp);
    match node.submit_transaction_at(small, 5_100) {
        Err(RelyoError::RateLimitExceeded(m)) => assert_eq!(m, from.as_str()),
        other => panic!("expected the rate limit, got {:?}", other),
    }
    assert_eq!(node.dag_size(), 0);
}

#[test]
fn submit_unfunded_transfer_is_refused_by_the_dag() {
    let mut node = default_node();
    node.init_genesis();
    let parent = node.dag().tips().all()[0];
    let kp = KeyPair::generate();
    let from = Address::from_public_key(&kp.public_key);
    let to = Address::from_public_key(&KeyPair::generate().public_key);
    let tx = TransactionBuilder::new(from, to, 1_000, relyo_config().base_fee, 1).parents(parent, parent).sign(&kp);
    match node.submit_transaction(tx) {
        Err(RelyoError::InsufficientBalance { have, need }) => {
            assert_eq!(have, 0);
            assert_eq!(need, 1_000 + relyo_config().base_fee);
        }
        other => panic!("expected insufficient balance, got {:?}", other),
    }
    assert_eq!(node.dag_size(), 1);
}

#[test]
fn mempool_batch_drains_and_reports_inserted() {
    let mut node = default_node();
    node.init_genesis();
    let kp = KeyPair::generate();
    let from = Address::from_public_key(&kp.public_key);
    let to = Address::from_public_key(&KeyPair::generate().public_key);
    let tx = TransactionBuilder::new(from, to, 1_000, relyo_config().base_fee, 1).sign(&kp);
    assert!(node.queue_transaction(tx.clone()));
    assert!(!node.queue_transaction(tx));
    assert_eq!(node.mempool_size(), 1);
    let inserted = node.process_mempool_batch(10);
    assert!(inserted.is_empty());
    assert_eq!(node.mempool_size(), 0);
    assert_eq!(node.dag_size(), 1);
    node.cleanup_rate_limits();
}

#[test]
fn uptime_is_whole_seconds_since_start() {
    let node = default_node();
    assert!(node.uptime_secs() < 60);
    assert_eq!(node.uptime_secs_at(0), 0);
}

#[test]
fn events_vote_requests_are_answered_from_the_dag() {
    let mut node = default_node();
    node.init_genesis();
    let tip = node.dag().tips().all()[0];
    match node.on_event(NodeEvent::VoteRequest(tip)) {
        NodeAction::PublishVote(v) => {
            assert_eq!(v.tx_hash, tip);
            assert!(v.accept);
            assert_eq!(v.node_id, "relyo-node");
        }
        other => panic!("expected a vote, got {:?}", other),
    }
    match node.on_event(NodeEvent::VoteRequest(TransactionHash([9u8; 32]))) {
        NodeAction::PublishVote(v) => assert!(!v.accept),
        other => panic!("expected a vote, got {:?}", other),
    }
}

#[test]
fn events_ban_only_for_the_supply_cap() {
    let mut node = default_node();
    node.init_genesis();
    let parent = node.dag().tips().all()[0];
    let kp = KeyPair::generate();
    let from = Address::from_public_key(&kp.public_key);
    let to = Address::from_public_key(&KeyPair::generate().public_key);
    let huge = TransactionBuilder::new(from.clone(), to.clone(), TOTAL_SUPPLY + 1, relyo_config().base_fee, 1).sign(&kp);
    assert!(matches!(node.on_event(NodeEvent::Transaction(huge)), NodeAction::BanPeer));
    let unfunded = TransactionBuilder::new(from, to, 1_000, relyo_config().base_fee, 1).parents(parent, parent).sign(&kp);
    assert!(matches!(node.on_event(NodeEvent::Transaction(unfunded)), NodeAction::Nothing));
    assert_eq!(node.mempool_size(), 0);
    assert_eq!(node.dag_size(), 1);
}

#[test]
fn events_ticks_drain_the_pool_and_clean_up() {
    let mut node = default_node();
    node.init_genesis();
    let kp = KeyPair::generate();
    let from = Address::from_public_key(&kp.public_key);
    let to = Address::from_public_key(&KeyPair::generate().public_key);
    let tx = TransactionBuilder::new(from, to, 1_000, relyo_config().base_fee, 1).sign(&kp);
    assert!(node.queue_transaction(tx));
    assert!(matches!(node.on_event(NodeEvent::MempoolTick), NodeAction::Nothing));
    assert_eq!(node.mempool_size(), 0);
    assert_eq!(node.dag_size(), 1);
    assert!(matches!(node.on_event(NodeEvent::CleanupTick), NodeAction::Nothing));
}

#[test]
fn events_votes_from_unknown_voters_change_nothing() {
    let mut node = default_node();
    node.init_genesis();
    let tip = node.dag().tips().all()[0];
    let v = VotePayload { tx_hash: tip, accept: true, node_id: "stranger".to_string() };
    assert!(matches!(node.on_event(NodeEvent::VoteResponse(v)), NodeAction::Nothing));
    assert_eq!(node.consensus().pending_votes(), 0);
}
