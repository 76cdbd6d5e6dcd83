use relyo::address::Address;
use relyo::crypto::KeyPair;
use relyo::error::RelyoError;
use relyo::token::relyo_config;
use relyo::transaction::{
    batch_verify_transactions, Transaction, TransactionBuilder, TransactionHash, TransactionPriority, TransactionType,
};

fn make_test_tx() -> (KeyPair, Transaction) {
    let sender_kp = KeyPair::generate();
    let receiver_kp = KeyPair::generate();
    let sender_addr = Address::from_public_key(&sender_kp.public_key);
    let receiver_addr = Address::from_public_key(&receiver_kp.public_key);
    let tx = TransactionBuilder::new(sender_addr, receiver_addr, 1_000_000, relyo_config().base_fee, 1)
        .sign(&sender_kp);
    (sender_kp, tx)
}

#[test]
fn test_build_and_verify() {
    let (_, tx) = make_test_tx();
    assert!(tx.validate().is_ok());
}

#[test]
fn test_hash_deterministic() {
    let (_, tx) = make_test_tx();
    assert_eq!(tx.hash(), tx.hash());
}

#[test]
fn test_zero_amount_rejected() {
    let kp = KeyPair::generate();
    let addr = Address::from_public_key(&kp.public_key);
    let recv = Address::from_public_key(&KeyPair::generate().public_key);
    let tx = TransactionBuilder::new(addr, recv, 0, relyo_config().base_fee, 1).sign(&kp);
    assert!(tx.validate().is_err());
}

#[test]
fn test_self_transfer_rejected() {
    let kp = KeyPair::generate();
    let addr = Address::from_public_key(&kp.public_key);
    let tx = TransactionBuilder::new(addr.clone(), addr, 100, relyo_config().base_fee, 1).sign(&kp);
    assert!(tx.validate().is_err());
}

#[test]
fn test_transaction_priority() {
    let base = relyo_config().base_fee;
    assert_eq!(TransactionPriority::from_fee(base), TransactionPriority::Low);
    assert_eq!(TransactionPriority::from_fee(base * 2), TransactionPriority::Normal);
    assert_eq!(TransactionPriority::from_fee(base * 5), TransactionPriority::High);
    assert_eq!(TransactionPriority::from_fee(base * 10), TransactionPriority::Critical);
}

#[test]
fn test_transaction_type() {
    let kp = KeyPair::generate();
    let addr = Address::from_public_key(&kp.public_key);
    let recv = Address::from_public_key(&KeyPair::generate().public_key);
    let tx = TransactionBuilder::new(addr, recv, 100, relyo_config().base_fee, 1)
        .tx_type(TransactionType::Stake)
        .sign(&kp);
    assert_eq!(tx.tx_type, TransactionType::Stake);
}

#[test]
fn test_batch_verify() {
    let (_, tx1) = make_test_tx();
    let (_, tx2) = make_test_tx();
    assert!(batch_verify_transactions(&[tx1, tx2]).is_ok());
}

#[test]
fn test_total_cost() {
    let (_, tx) = make_test_tx();
    assert_eq!(tx.total_cost(), tx.amount + tx.fee);
}

#[test]
fn test_tx_with_data() {
    let kp = KeyPair::generate();
    let addr = Address::from_public_key(&kp.public_key);
    let recv = Address::from_public_key(&KeyPair::generate().public_key);
    let data = b"memo: payment for invoice #123".to_vec();
    let tx = TransactionBuilder::new(addr, recv, 100, relyo_config().base_fee, 1)
        .with_data(data.clone())
        .sign(&kp);
    assert_eq!(tx.data, data);
    assert!(tx.validate().is_ok());
}

#[test]
fn test_chain_id_replay_protection() {
    let (kp, mut tx) = make_test_tx();
    assert!(tx.validate().is_ok());
    let mut tampered_buf = tx.signable_bytes();
    let len = tampered_buf.len();
    tampered_buf[len - 4] = 2;
    let bad_signature = kp.sign(&tampered_buf);
    tx.signature = bad_signature;
    assert!(tx.validate().is_err());
}

#[test]
fn test_pure_pos_without_pow() {
    let (_kp, tx) = make_test_tx();
    let _bytes = tx.signable_bytes();
    assert!(tx.validate().is_ok());
}

#[test]
fn batch_verify_reports_the_bad_count() {
    let (_, tx1) = make_test_tx();
    let (_, mut tx2) = make_test_tx();
    tx2.amount += 1;
    match batch_verify_transactions(&[tx1, tx2]) {
        Err(RelyoError::BatchVerifyError { count, total }) => {
            assert_eq!(count, 1);
            assert_eq!(total, 2);
        }
        _ => panic!("expected a batch error"),
    }
}

#[test]
fn sender_must_match_public_key() {
    let (_, mut tx) = make_test_tx();
    let other = KeyPair::generate();
    tx.sender = Address::from_public_key(&other.public_key);
    assert!(tx.verify_sender().is_err());
    assert!(matches!(tx.validate(), Err(RelyoError::InvalidTransaction(_))));
}

#[test]
fn tampered_amount_breaks_signature_and_hash() {
    let (_, tx) = make_test_tx();
    let h = tx.hash();
    let mut t2 = tx.clone();
    t2.amount += 1;
    assert!(t2.verify_signature().is_err());
    assert_ne!(t2.hash(), h);
}

#[test]
fn hash_hex_roundtrip_and_zero() {
    let (_, tx) = make_test_tx();
    let h = tx.hash();
    let back = TransactionHash::from_hex(&h.to_hex()).unwrap();
    assert_eq!(back, h);
    assert!(TransactionHash::zero().is_zero());
    assert!(!h.is_zero());
    assert!(TransactionHash::from_hex("12").is_err());
    assert!(TransactionHash::from_hex("xyz").is_err());
}

#[test]
fn genesis_detection_and_priority_of_tx() {
    let (_, tx) = make_test_tx();
    assert!(!tx.is_genesis());
    assert_eq!(tx.priority(), TransactionPriority::Low);
    assert_eq!(TransactionPriority::from_fee(relyo_config().base_fee * 3), TransactionPriority::Normal);
    assert_eq!(TransactionPriority::from_fee(0), TransactionPriority::Low);
}
