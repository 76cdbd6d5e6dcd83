use relyo::address::Address;
use relyo::conflict::ConflictDetector;
use relyo::crypto::{KeyPair, Signature};
use relyo::explorer::{address_transaction_count, status_counts, DagVisualization};
use relyo::graph::DagGraph;
use relyo::mempool::Mempool;
use relyo::primitives::now_ms;
use relyo::rewards::RewardCalculator;
use relyo::state::LedgerState;
use relyo::tips::TipSelector;
use relyo::token::relyo_config;
use relyo::transaction::{Transaction, TransactionBuilder, TransactionHash, TransactionStatus, TransactionType};

fn setup_dag_with_genesis(receiver: &Address, sender_kp: &KeyPair, amount: u64) -> (DagGraph, TransactionHash) {
    let mut dag = DagGraph::new(LedgerState::new(), TipSelector::new(), ConflictDetector::new());
    let gen_addr = Address::genesis();
    let mut tx = Transaction {
        tx_type: TransactionType::Genesis,
        sender: gen_addr,
        receiver: receiver.clone(),
        amount,
        fee: 0,
        timestamp: now_ms(),
        nonce: 0,
        parent_1: TransactionHash::zero(),
        parent_2: TransactionHash::zero(),
        sender_pubkey: sender_kp.public_key.clone(),
        signature: Signature::from_bytes([0; 64]),
        data: Vec::new(),
    };
    let msg = tx.signable_bytes();
    tx.signature = sender_kp.sign(&msg);
    let hash = dag.insert_genesis(tx).unwrap();
    (dag, hash)
}

#[test]
fn test_full_transfer_flow() {
    let alice_kp = KeyPair::generate();
    let alice = Address::from_public_key(&alice_kp.public_key);
    let bob_kp = KeyPair::generate();
    let bob = Address::from_public_key(&bob_kp.public_key);

    let fund_amount = 10_000_000_000u64;
    let (mut dag, genesis_hash) = setup_dag_with_genesis(&alice, &alice_kp, fund_amount);

    assert_eq!(dag.balance(&alice), fund_amount);
    assert_eq!(dag.balance(&bob), 0);
    assert_eq!(dag.len(), 1);

    let transfer_amount = 1_000_000_000u64;
    let tx = TransactionBuilder::new(alice.clone(), bob.clone(), transfer_amount, relyo_config().base_fee, 1)
        .parents(genesis_hash.clone(), genesis_hash.clone())
        .sign(&alice_kp);

    let tx_hash = dag.insert(tx).unwrap();
    assert_eq!(dag.len(), 2);

    let expected_alice = fund_amount - transfer_amount - relyo_config().base_fee;
    assert_eq!(dag.balance(&alice), expected_alice);
    assert_eq!(dag.balance(&bob), transfer_amount);

    assert!(!dag.tips().all().contains(&genesis_hash));
    assert!(dag.tips().all().contains(&tx_hash));
    assert_eq!(dag.max_depth(), 1);
}

#[test]
fn test_chain_of_transfers() {
    let alice_kp = KeyPair::generate();
    let alice = Address::from_public_key(&alice_kp.public_key);
    let bob_kp = KeyPair::generate();
    let bob = Address::from_public_key(&bob_kp.public_key);
    let charlie_kp = KeyPair::generate();
    let charlie = Address::from_public_key(&charlie_kp.public_key);

    let (mut dag, g_hash) = setup_dag_with_genesis(&alice, &alice_kp, 100_000_000_000);

    let tx1 = TransactionBuilder::new(alice.clone(), bob.clone(), 50_000_000_000, relyo_config().base_fee, 1)
        .parents(g_hash.clone(), g_hash.clone())
        .sign(&alice_kp);
    let h1 = dag.insert(tx1).unwrap();

    assert_eq!(dag.balance(&bob), 50_000_000_000);

    let tx2 = TransactionBuilder::new(bob.clone(), charlie.clone(), 25_000_000_000, relyo_config().base_fee, 1)
        .parents(h1.clone(), h1.clone())
        .sign(&bob_kp);
    let h2 = dag.insert(tx2).unwrap();

    assert_eq!(dag.balance(&charlie), 25_000_000_000);
    assert_eq!(dag.len(), 3);
    assert_eq!(dag.max_depth(), 2);

    assert!(dag.tips().all().contains(&h2));
    assert!(!dag.tips().all().contains(&h1));
}

#[test]
fn test_insufficient_balance_rejected() {
    let alice_kp = KeyPair::generate();
    let alice = Address::from_public_key(&alice_kp.public_key);
    let bob = Address::from_public_key(&KeyPair::generate().public_key);

    let (mut dag, g_hash) = setup_dag_with_genesis(&alice, &alice_kp, 1_000_000);

    let tx = TransactionBuilder::new(alice, bob, 999_999_999, relyo_config().base_fee, 1)
        .parents(g_hash.clone(), g_hash)
        .sign(&alice_kp);

    assert!(dag.insert(tx).is_err());
}

#[test]
fn test_duplicate_nonce_rejected() {
    let alice_kp = KeyPair::generate();
    let alice = Address::from_public_key(&alice_kp.public_key);
    let bob = Address::from_public_key(&KeyPair::generate().public_key);
    let charlie = Address::from_public_key(&KeyPair::generate().public_key);

    let (mut dag, g_hash) = setup_dag_with_genesis(&alice, &alice_kp, 100_000_000_000);

    let tx1 = TransactionBuilder::new(alice.clone(), bob, 1_000_000, relyo_config().base_fee, 1)
        .parents(g_hash.clone(), g_hash.clone())
        .sign(&alice_kp);
    let h1 = dag.insert(tx1).unwrap();

    let tx2 = TransactionBuilder::new(alice, charlie, 1_000_000, relyo_config().base_fee, 1)
        .parents(h1.clone(), h1)
        .sign(&alice_kp);

    assert!(dag.insert(tx2).is_err());
}

#[test]
fn test_mempool_drain_into_dag() {
    let alice_kp = KeyPair::generate();
    let alice = Address::from_public_key(&alice_kp.public_key);
    let bob = Address::from_public_key(&KeyPair::generate().public_key);

    let (mut dag, g_hash) = setup_dag_with_genesis(&alice, &alice_kp, 100_000_000_000);

    let mut mempool = Mempool::new(100);

    for i in 1..=5u64 {
        let tx = TransactionBuilder::new(alice.clone(), bob.clone(), 100_000, relyo_config().base_fee, i)
            .parents(g_hash.clone(), g_hash.clone())
            .sign(&alice_kp);
        mempool.insert(tx);
    }
    assert_eq!(mempool.len(), 5);

    let batch = mempool.drain_batch(10);
    assert_eq!(batch.len(), 5);
    assert_eq!(mempool.len(), 0);

    let mut successes = 0;
    for tx in batch {
        if dag.insert(tx).is_ok() {
            successes += 1;
        }
    }
    assert!(successes >= 1, "at least one tx from mempool should succeed");
}

#[test]
fn test_dag_pruning() {
    let alice_kp = KeyPair::generate();
    let alice = Address::from_public_key(&alice_kp.public_key);
    let bob = Address::from_public_key(&KeyPair::generate().public_key);

    let (mut dag, g_hash) = setup_dag_with_genesis(&alice, &alice_kp, 100_000_000_000);

    let mut prev = g_hash;
    for i in 1..=5u64 {
        let tx = TransactionBuilder::new(alice.clone(), bob.clone(), 100_000, relyo_config().base_fee, i)
            .parents(prev.clone(), prev.clone())
            .sign(&alice_kp);
        prev = dag.insert(tx).unwrap();
        dag.set_status(&prev, TransactionStatus::Confirmed);
    }

    assert_eq!(dag.len(), 6);

    let pruned = dag.prune_confirmed(2);
    assert!(!pruned.is_empty(), "should prune deeply confirmed transactions");
}

#[test]
fn test_ancestor_traversal() {
    let alice_kp = KeyPair::generate();
    let alice = Address::from_public_key(&alice_kp.public_key);
    let bob = Address::from_public_key(&KeyPair::generate().public_key);

    let (mut dag, g_hash) = setup_dag_with_genesis(&alice, &alice_kp, 100_000_000_000);

    let tx1 = TransactionBuilder::new(alice.clone(), bob.clone(), 100_000, relyo_config().base_fee, 1)
        .parents(g_hash.clone(), g_hash.clone())
        .sign(&alice_kp);
    let h1 = dag.insert(tx1).unwrap();

    let tx2 = TransactionBuilder::new(alice, bob, 100_000, relyo_config().base_fee, 2)
        .parents(h1.clone(), h1.clone())
        .sign(&alice_kp);
    let h2 = dag.insert(tx2).unwrap();

    let ancestors = dag.get_ancestors(&h2, 10);
    assert!(ancestors.contains(&h1));
    assert!(ancestors.contains(&g_hash));

    let desc = dag.get_descendants(&g_hash, 10);
    assert!(desc.contains(&h1));
    assert!(desc.contains(&h2));
}

#[test]
fn traversal_respects_levels_and_reports_each_once() {
    let alice_kp = KeyPair::generate();
    let alice = Address::from_public_key(&alice_kp.public_key);
    let bob = Address::from_public_key(&KeyPair::generate().public_key);
    let (mut dag, g) = setup_dag_with_genesis(&alice, &alice_kp, 100_000_000_000);
    let mut chain = vec![g];
    for i in 1..=4u64 {
        let p = *chain.last().unwrap();
        let tx = TransactionBuilder::new(alice.clone(), bob.clone(), 1_000, relyo_config().base_fee, i)
            .parents(p, p)
            .sign(&alice_kp);
        chain.push(dag.insert(tx).unwrap());
    }
    let up = dag.get_ancestors(&chain[4], 2);
    assert_eq!(up, vec![chain[3], chain[2]]);
    let down = dag.get_descendants(&chain[0], 10);
    assert_eq!(down, vec![chain[1], chain[2], chain[3], chain[4]]);
    assert!(dag.get_ancestors(&chain[4], 0).is_empty());
    assert!(dag.get_descendants(&TransactionHash([8u8; 32]), 5).is_empty());
    let mut ids = dag.get_ancestors(&chain[4], u64::MAX);
    ids.sort_by_key(|h| h.0);
    let mut expected = vec![chain[0], chain[1], chain[2], chain[3]];
    expected.sort_by_key(|h| h.0);
    assert_eq!(ids, expected);
}

#[test]
fn pruning_keeps_recent_and_unconfirmed_vertices() {
    let alice_kp = KeyPair::generate();
    let alice = Address::from_public_key(&alice_kp.public_key);
    let bob = Address::from_public_key(&KeyPair::generate().public_key);
    let (mut dag, g) = setup_dag_with_genesis(&alice, &alice_kp, 100_000_000_000);
    let mut prev = g;
    let mut hashes = vec![g];
    for i in 1..=3u64 {
        let tx = TransactionBuilder::new(alice.clone(), bob.clone(), 1_000, relyo_config().base_fee, i)
            .parents(prev, prev)
            .sign(&alice_kp);
        prev = dag.insert(tx).unwrap();
        hashes.push(prev);
    }
    let pruned = dag.prune_confirmed(1);
    assert_eq!(pruned, vec![g]);
    assert!(!dag.contains(&g));
    for h in &hashes[1..] {
        assert!(dag.contains(h));
    }
    assert_eq!(dag.len(), 4);
}

#[test]
fn accepted_transfer_keeps_circulation_and_collects_the_fee() {
    let alice_kp = KeyPair::generate();
    let alice = Address::from_public_key(&alice_kp.public_key);
    let bob = Address::from_public_key(&KeyPair::generate().public_key);
    let (mut dag, g) = setup_dag_with_genesis(&alice, &alice_kp, 50_000_000_000);
    let before = dag.state().total_circulating();
    let tx = TransactionBuilder::new(alice, bob, 7_000_000, relyo_config().base_fee, 1).parents(g, g).sign(&alice_kp);
    let fees_before = dag.state().validator_fees();
    dag.insert(tx).unwrap();
    assert_eq!(dag.state().total_circulating(), before);
    assert_eq!(dag.state().validator_fees(), fees_before + relyo_config().base_fee);
}

#[test]
fn collected_fees_are_paid_to_a_validator() {
    let validator = Address::from_public_key(&KeyPair::generate().public_key);
    let mut state = relyo::state::LedgerState::new();
    state.credit(&validator, 5);
    state.collect_fee(100);
    state.collect_fee(20);
    assert_eq!(state.validator_fees(), 120);
    assert_eq!(state.total_circulating(), 125);
    assert_eq!(state.pay_fees_to(&validator), 120);
    assert_eq!(state.validator_fees(), 0);
    assert_eq!(state.balance(&validator), 125);
    assert_eq!(state.total_circulating(), 125);
}

#[test]
fn explorer_views_of_the_dag() {
    let alice_kp = KeyPair::generate();
    let alice = Address::from_public_key(&alice_kp.public_key);
    let bob = Address::from_public_key(&KeyPair::generate().public_key);
    let (mut dag, g) = setup_dag_with_genesis(&alice, &alice_kp, 50_000_000_000);
    let tx = TransactionBuilder::new(alice.clone(), bob.clone(), 7_000, relyo_config().base_fee, 1).parents(g, g).sign(&alice_kp);
    let h = dag.insert(tx).unwrap();
    let viz = DagVisualization::of_dag(&dag);
    assert_eq!(viz.nodes.len(), 2);
    assert_eq!(viz.edges.len(), 2);
    for e in &viz.edges {
        assert_eq!(e.from, h.to_hex());
        assert_eq!(e.to, g.to_hex());
    }
    let gnode = viz.nodes.iter().find(|n| n.id == g.to_hex()).unwrap();
    assert_eq!(gnode.status, "Confirmed");
    assert_eq!(gnode.weight, 3);
    assert_eq!(status_counts(&dag), (1, 1));
    assert_eq!(address_transaction_count(&dag, &alice), 2);
    assert_eq!(address_transaction_count(&dag, &bob), 1);
}

#[test]
fn reward_pool_is_split_exactly() {
    let calc = RewardCalculator::with_pool(1_000_000);
    let rewards = calc.split_pool(&[600_000, 300_000, 0]);
    assert_eq!(rewards, vec![600_000, 300_000, 100_000]);
    assert_eq!(rewards.iter().sum::<u64>(), 1_000_000);
    assert!(calc.split_pool(&[]).is_empty());
    assert_eq!(RewardCalculator::new().daily_pool(), relyo_config().daily_reward_emission);
}
