use relyo::address::Address;
use relyo::checkpoint::CheckpointManager;
use relyo::conflict::{ConflictDetector, ConflictResult};
use relyo::crypto::{KeyPair, Signature};
use relyo::error::RelyoError;
use relyo::graph::DagGraph;
use relyo::mempool::Mempool;
use relyo::primitives::now_ms;
use relyo::state::{LedgerState, UnstakeRequest};
use relyo::tips::TipSelector;
use relyo::token::relyo_config;
use relyo::transaction::{Transaction, TransactionBuilder, TransactionHash, TransactionStatus, TransactionType};

fn addr_of(kp: &KeyPair) -> Address {
    Address::from_public_key(&kp.public_key)
}

fn make_tx_with_fee(fee: u64) -> Transaction {
    let kp = KeyPair::generate();
    let addr = addr_of(&kp);
    let recv = addr_of(&KeyPair::generate());
    TransactionBuilder::new(addr, recv, 100, fee, 1).sign(&kp)
}

fn make_tx() -> Transaction {
    make_tx_with_fee(relyo_config().base_fee)
}

fn make_conflict_tx(kp: &KeyPair, nonce: u64) -> Transaction {
    let addr = addr_of(kp);
    let recv = addr_of(&KeyPair::generate());
    TransactionBuilder::new(addr, recv, 100, relyo_config().base_fee, nonce).sign(kp)
}

fn empty_dag() -> DagGraph {
    DagGraph::new(LedgerState::new(), TipSelector::new(), ConflictDetector::new())
}

fn genesis_tx(receiver: &Address, kp: &KeyPair, amount: u64) -> Transaction {
    let mut tx = Transaction {
        tx_type: TransactionType::Genesis,
        sender: Address::genesis(),
        receiver: receiver.clone(),
        amount,
        fee: 0,
        timestamp: now_ms(),
        nonce: 0,
        parent_1: TransactionHash::zero(),
        parent_2: TransactionHash::zero(),
        sender_pubkey: kp.public_key,
        signature: Signature::from_bytes([0; 64]),
        data: Vec::new(),
    };
    let msg = tx.signable_bytes();
    tx.signature = kp.sign(&msg);
    tx
}

// ─── checkpoints ────────────────────────────────────────────────────────────

#[test]
fn test_checkpoint_interval() {
    let mut mgr = CheckpointManager::new(5);
    assert!(!mgr.on_transaction());
    assert!(!mgr.on_transaction());
    assert!(!mgr.on_transaction());
    assert!(!mgr.on_transaction());
    assert!(mgr.on_transaction());
}

#[test]
fn test_epoch_counter() {
    let mgr = CheckpointManager::new(1000);
    assert_eq!(mgr.current_epoch(), 0);
}

#[test]
fn test_tx_since_last() {
    let mut mgr = CheckpointManager::new(100);
    assert_eq!(mgr.tx_since_last(), 0);
    mgr.on_transaction();
    mgr.on_transaction();
    assert_eq!(mgr.tx_since_last(), 2);
}

#[test]
fn checkpoint_advances_epoch_and_resets_counter() {
    let mut mgr = CheckpointManager::new(2);
    let dag = empty_dag();
    let state = LedgerState::new();
    mgr.on_transaction();
    let rec = mgr.create_checkpoint(&dag, &state);
    assert_eq!(rec.checkpoint.epoch, 1);
    assert_eq!(rec.checkpoint.transaction_count, 0);
    assert_eq!(rec.checkpoint.state_hash, state.state_hash());
    assert_eq!(mgr.current_epoch(), 1);
    assert_eq!(mgr.tx_since_last(), 0);
}

// ─── conflicts ──────────────────────────────────────────────────────────────

#[test]
fn test_no_conflict() {
    let det = ConflictDetector::new();
    let kp = KeyPair::generate();
    let tx = make_conflict_tx(&kp, 1);
    assert!(matches!(det.check_transaction(&tx, 10_000_000, 0), ConflictResult::NoConflict));
}

#[test]
fn test_nonce_conflict() {
    let mut det = ConflictDetector::new();
    let kp = KeyPair::generate();
    let tx1 = make_conflict_tx(&kp, 1);
    det.commit_transaction(&tx1);
    let tx2 = make_conflict_tx(&kp, 1);
    assert!(matches!(det.check_transaction(&tx2, 10_000_000, 0), ConflictResult::NonceConflict { .. }));
}

#[test]
fn test_double_spend() {
    let det = ConflictDetector::new();
    let kp = KeyPair::generate();
    let tx = make_conflict_tx(&kp, 1);
    assert!(matches!(det.check_transaction(&tx, 50, 0), ConflictResult::DoubleSpend { .. }));
}

#[test]
fn test_conflict_resolution() {
    let mut det = ConflictDetector::new();
    let h1 = TransactionHash([1u8; 32]);
    let h2 = TransactionHash([2u8; 32]);
    det.register_conflict(h1.clone(), h2.clone());
    assert!(det.is_conflicting(&h1));
    assert_eq!(det.conflict_count(), 1);
    let rejected = det.resolve_conflict(&h1);
    assert_eq!(rejected, vec![h2]);
    assert_eq!(det.conflict_count(), 0);
}

#[test]
fn revert_frees_the_nonce_and_double_spend_reports_totals() {
    let mut det = ConflictDetector::new();
    let kp = KeyPair::generate();
    let tx = make_conflict_tx(&kp, 3);
    det.commit_transaction(&tx);
    det.revert_transaction(&tx);
    assert!(matches!(det.check_transaction(&tx, u64::MAX, 0), ConflictResult::NoConflict));
    match det.check_transaction(&tx, 10, 5) {
        ConflictResult::DoubleSpend { attempted_total, available, .. } => {
            assert_eq!(attempted_total, 5 + 100 + relyo_config().base_fee);
            assert_eq!(available, 10);
        }
        _ => panic!("expected a double spend"),
    }
}

// ─── DAG ────────────────────────────────────────────────────────────────────

#[test]
fn test_genesis_insert() {
    let mut dag = empty_dag();
    let kp = KeyPair::generate();
    let recv = addr_of(&kp);
    let tx = genesis_tx(&recv, &kp, 1_000_000);
    let hash = dag.insert_genesis(tx).unwrap();
    assert!(dag.contains(&hash));
    assert_eq!(dag.balance(&recv), 1_000_000);
    assert_eq!(dag.len(), 1);
    assert_eq!(dag.max_depth(), 0);
}

#[test]
fn test_depth_tracking() {
    let dag = empty_dag();
    assert_eq!(dag.max_depth(), 0);
}

#[test]
fn insert_genesis_refuses_other_types() {
    let mut dag = empty_dag();
    let tx = make_tx();
    assert!(matches!(dag.insert_genesis(tx), Err(RelyoError::InvalidTransaction(_))));
    assert!(dag.is_empty());
}

#[test]
fn insert_reports_missing_parent_and_balance() {
    let mut dag = empty_dag();
    let kp = KeyPair::generate();
    let alice = addr_of(&kp);
    let g = dag.insert_genesis(genesis_tx(&alice, &kp, 1_000_000_000)).unwrap();
    let bob = addr_of(&KeyPair::generate());
    let missing = TransactionHash([7u8; 32]);
    let tx = TransactionBuilder::new(alice.clone(), bob.clone(), 1_000, relyo_config().base_fee, 1)
        .parents(g, missing)
        .sign(&kp);
    match dag.insert(tx) {
        Err(RelyoError::InvalidParent(m)) => assert_eq!(m, missing.to_hex()),
        other => panic!("expected a missing parent, got {:?}", other),
    }
    let tx = TransactionBuilder::new(alice.clone(), bob, 2_000_000_000, relyo_config().base_fee, 1)
        .parents(g, g)
        .sign(&kp);
    match dag.insert(tx) {
        Err(RelyoError::InsufficientBalance { have, need }) => {
            assert_eq!(have, 1_000_000_000);
            assert_eq!(need, 2_000_000_000 + relyo_config().base_fee);
        }
        other => panic!("expected insufficient balance, got {:?}", other),
    }
    assert_eq!(dag.len(), 1);
}

#[test]
fn set_status_and_confirmation_depth() {
    let mut dag = empty_dag();
    let kp = KeyPair::generate();
    let alice = addr_of(&kp);
    let g = dag.insert_genesis(genesis_tx(&alice, &kp, 1_000_000_000)).unwrap();
    let bob = addr_of(&KeyPair::generate());
    let tx = TransactionBuilder::new(alice, bob, 1_000, relyo_config().base_fee, 1).parents(g, g).sign(&kp);
    let h = dag.insert(tx).unwrap();
    assert_eq!(dag.get(&h).unwrap().status, TransactionStatus::Pending);
    dag.set_status(&h, TransactionStatus::Confirmed);
    assert_eq!(dag.get(&h).unwrap().status, TransactionStatus::Confirmed);
    assert_eq!(dag.confirmation_depth(&g), 1);
    assert_eq!(dag.confirmation_depth(&h), 0);
    assert_eq!(dag.confirmation_depth(&TransactionHash([9u8; 32])), 0);
    let gnode = dag.get(&g).unwrap();
    assert_eq!(gnode.children, vec![h, h]);
    assert_eq!(gnode.weight, 3);
    assert_eq!(dag.all_transactions().len(), 2);
}

// ─── mempool ────────────────────────────────────────────────────────────────

#[test]
fn test_insert_remove() {
    let mut pool = Mempool::new(100);
    let tx = make_tx();
    let hash = tx.hash();
    assert!(pool.insert(tx));
    assert_eq!(pool.len(), 1);
    assert!(pool.contains(&hash));
    pool.remove(&hash);
    assert_eq!(pool.len(), 0);
}

#[test]
fn test_drain_batch() {
    let mut pool = Mempool::new(100);
    for _ in 0..10 {
        pool.insert(make_tx());
    }
    let batch = pool.drain_batch(5);
    assert_eq!(batch.len(), 5);
    assert_eq!(pool.len(), 5);
}

#[test]
fn test_max_size() {
    let mut pool = Mempool::new(2);
    assert!(pool.insert(make_tx()));
    assert!(pool.insert(make_tx()));
    assert!(!pool.insert(make_tx()));
}

#[test]
fn test_priority_drain() {
    let mut pool = Mempool::new(100);
    let low = make_tx_with_fee(relyo_config().base_fee);
    let high = make_tx_with_fee(relyo_config().base_fee * 10);
    pool.insert(low);
    pool.insert(high);
    let batch = pool.drain_by_priority(1);
    assert_eq!(batch.len(), 1);
    assert!(batch[0].fee > relyo_config().base_fee);
}

#[test]
fn test_total_fees() {
    let mut pool = Mempool::new(100);
    let tx1 = make_tx_with_fee(100);
    let tx2 = make_tx_with_fee(200);
    pool.insert(tx1);
    pool.insert(tx2);
    assert_eq!(pool.total_fees(), 300);
}

#[test]
fn mempool_refuses_duplicates_and_tracks_senders() {
    let mut pool = Mempool::new(10);
    let tx = make_tx();
    let sender = tx.sender.clone();
    assert!(pool.insert(tx.clone()));
    assert!(!pool.insert(tx.clone()));
    assert_eq!(pool.len(), 1);
    assert!(pool.has_conflict(&tx));
    assert_eq!(pool.get_pending_for_address(&sender).len(), 1);
    let removed = pool.remove(&tx.hash()).unwrap();
    assert_eq!(removed.hash(), tx.hash());
    assert!(pool.get_pending_for_address(&sender).is_empty());
    assert!(pool.is_empty());
}

#[test]
fn drain_batch_takes_oldest_first() {
    let mut pool = Mempool::new(10);
    let kp = KeyPair::generate();
    let from = addr_of(&kp);
    let mut txs = Vec::new();
    for i in 0..3u64 {
        let mut tx = TransactionBuilder::new(from.clone(), addr_of(&KeyPair::generate()), 100, 1_000_000, i + 1).sign(&kp);
        tx.timestamp = 1_000 - i;
        txs.push(tx);
    }
    for tx in txs {
        pool.insert(tx);
    }
    let batch = pool.drain_batch(2);
    assert_eq!(batch.len(), 2);
    assert_eq!(batch[0].timestamp, 998);
    assert_eq!(batch[1].timestamp, 999);
    assert_eq!(pool.len(), 1);
}

// ─── ledger state ───────────────────────────────────────────────────────────

#[test]
fn test_credit_debit() {
    let mut state = LedgerState::new();
    let kp = KeyPair::generate();
    let addr = addr_of(&kp);
    state.credit(&addr, 1000);
    assert_eq!(state.balance(&addr), 1000);
    state.debit(&addr, 400).unwrap();
    assert_eq!(state.balance(&addr), 600);
    assert!(state.debit(&addr, 700).is_err());
}

#[test]
fn test_nonce() {
    let mut state = LedgerState::new();
    let kp = KeyPair::generate();
    let addr = addr_of(&kp);
    assert_eq!(state.nonce(&addr), 0);
    state.increment_nonce(&addr);
    assert_eq!(state.nonce(&addr), 1);
}

#[test]
fn test_state_hash_deterministic() {
    let mut state = LedgerState::new();
    let kp = KeyPair::generate();
    let addr = addr_of(&kp);
    state.credit(&addr, 1000);
    let h1 = state.state_hash();
    let h2 = state.state_hash();
    assert_eq!(h1, h2);
}

#[test]
fn test_snapshot_roundtrip() {
    let mut state = LedgerState::new();
    let kp1 = KeyPair::generate();
    let kp2 = KeyPair::generate();
    let addr1 = addr_of(&kp1);
    let addr2 = addr_of(&kp2);
    state.credit(&addr1, 1000);
    state.credit(&addr2, 2000);
    state.increment_nonce(&addr1);
    let snapshot = state.create_snapshot();
    let original_hash = state.state_hash();
    let mut state2 = LedgerState::new();
    state2.restore_from_snapshot(&snapshot);
    assert_eq!(state2.state_hash(), original_hash);
}

#[test]
fn test_total_circulating() {
    let mut state = LedgerState::new();
    let kp1 = KeyPair::generate();
    let kp2 = KeyPair::generate();
    let addr1 = addr_of(&kp1);
    let addr2 = addr_of(&kp2);
    state.credit(&addr1, 500);
    state.credit(&addr2, 300);
    assert_eq!(state.total_circulating(), 800);
}

#[test]
fn state_hash_does_not_depend_on_insertion_order() {
    let a = addr_of(&KeyPair::generate());
    let b = addr_of(&KeyPair::generate());
    let mut s1 = LedgerState::new();
    s1.credit(&a, 5);
    s1.credit(&b, 7);
    let mut s2 = LedgerState::new();
    s2.credit(&b, 7);
    s2.credit(&a, 5);
    assert_eq!(s1.state_hash(), s2.state_hash());
    s2.credit(&a, 1);
    assert_ne!(s1.state_hash(), s2.state_hash());
}

#[test]
fn staking_and_unstaking_flow() {
    let mut state = LedgerState::new();
    let addr = addr_of(&KeyPair::generate());
    state.add_stake(&addr, 500);
    assert_eq!(state.stake_balance(&addr), 500);
    assert!(matches!(state.remove_stake(&addr, 600), Err(RelyoError::InsufficientBalance { have: 500, need: 600 })));
    state.request_unstake(&addr, 200, 1_000, 5).unwrap();
    assert_eq!(state.stake_balance(&addr), 300);
    let reqs = state.unbond_requests(&addr);
    assert_eq!(reqs, vec![UnstakeRequest { amount: 200, unlock_time_ms: 1_000 + 2_592_000_000, unlock_epoch: 15 }]);
    assert_eq!(state.total_circulating(), 500);
    assert_eq!(state.process_unstakes(&addr, 2_000, 6), 0);
    assert_eq!(state.process_unstakes(&addr, 2_000, 15), 0);
    assert_eq!(state.process_unstakes(&addr, 1_000 + 2_592_000_000, 14), 0);
    assert_eq!(state.unbond_requests(&addr).len(), 1);
    assert_eq!(state.balance(&addr), 0);
    assert_eq!(state.process_unstakes(&addr, 1_000 + 2_592_000_000, 15), 200);
    assert_eq!(state.balance(&addr), 200);
    assert!(state.unbond_requests(&addr).is_empty());
    assert_eq!(state.address_count(), 1);
}

// ─── tips ───────────────────────────────────────────────────────────────────

#[test]
fn test_add_remove() {
    let mut tips = TipSelector::new();
    let h1 = TransactionHash([1u8; 32]);
    let h2 = TransactionHash([2u8; 32]);
    let h3 = TransactionHash([3u8; 32]);
    tips.add(h1.clone());
    tips.add(h2.clone());
    tips.add(h3.clone());
    assert_eq!(tips.len(), 3);
    tips.remove(&h1);
    assert_eq!(tips.len(), 2);
}

#[test]
fn test_select_two() {
    let mut tips = TipSelector::new();
    assert!(tips.select_two().is_none());
    tips.add(TransactionHash([1u8; 32]));
    assert!(tips.select_two().is_none());
    tips.add(TransactionHash([2u8; 32]));
    let (a, b) = tips.select_two().unwrap();
    assert_ne!(a, b);
}

#[test]
fn test_weighted_selection() {
    let mut tips = TipSelector::new();
    tips.add_weighted(TransactionHash([1u8; 32]), 100);
    tips.add_weighted(TransactionHash([2u8; 32]), 1);
    let (a, b) = tips.select_weighted().unwrap();
    assert_ne!(a, b);
}

#[test]
fn test_tip_age() {
    let mut tips = TipSelector::new();
    let h1 = TransactionHash([1u8; 32]);
    tips.add(h1.clone());
    assert!(tips.tip_age(&h1).is_some());
}

#[test]
fn tips_do_not_repeat_and_prune_by_age() {
    let mut tips = TipSelector::new();
    let h1 = TransactionHash([1u8; 32]);
    tips.add(h1);
    tips.add(h1);
    assert_eq!(tips.len(), 1);
    assert!(tips.tip_age(&TransactionHash([5u8; 32])).is_none());
    assert!(tips.prune_stale(u64::MAX).is_empty());
    assert_eq!(tips.len(), 1);
    tips.remove(&h1);
    assert!(tips.is_empty());
    assert!(tips.select_weighted().is_none());
}

#[test]
fn tips_prune_stale_at_removes_exactly_the_old_ones() {
    let mut tips = TipSelector::new();
    let h1 = TransactionHash([1u8; 32]);
    let h2 = TransactionHash([2u8; 32]);
    tips.add(h1);
    tips.add(h2);
    let later = now_ms() + 60_000;
    assert!(tips.prune_stale_at(120_000, later).is_empty());
    assert_eq!(tips.len(), 2);
    let mut stale = tips.prune_stale_at(30_000, later);
    stale.sort_by_key(|h| h.0);
    assert_eq!(stale, vec![h1, h2]);
    assert_eq!(tips.len(), 0);
    assert_eq!(tips.tip_age(&h1), None);
}

#[test]
fn mempool_pending_for_address_gives_the_transactions() {
    let mut pool = Mempool::new(10);
    let tx = make_tx();
    let sender = tx.sender.clone();
    pool.insert(tx.clone());
    let pending = pool.get_pending_for_address(&sender);
    assert_eq!(pending.len(), 1);
    assert_eq!(pending[0].hash(), tx.hash());
    assert!(pool.get_pending_for_address(&tx.receiver).is_empty());
}

#[test]
fn scan_weights_finds_the_bucket_of_a_draw() {
    let w = vec![
        (TransactionHash([1u8; 32]), 3u64),
        (TransactionHash([2u8; 32]), 0u64),
        (TransactionHash([3u8; 32]), 5u64),
    ];
    assert_eq!(relyo::tips::scan_weights(&w, 0), 0);
    assert_eq!(relyo::tips::scan_weights(&w, 2), 0);
    assert_eq!(relyo::tips::scan_weights(&w, 3), 2);
    assert_eq!(relyo::tips::scan_weights(&w, 7), 2);
}

#[test]
fn checked_total_circulating_matches_and_reports_overflow() {
    let mut state = LedgerState::new();
    let a = addr_of(&KeyPair::generate());
    let b = addr_of(&KeyPair::generate());
    state.credit(&a, 40);
    state.add_stake(&a, 2);
    assert_eq!(state.checked_total_circulating(), Some(42));
    assert_eq!(state.checked_total_circulating(), Some(state.total_circulating()));
    state.credit(&b, u64::MAX);
    assert_eq!(state.checked_total_circulating(), None);
}
