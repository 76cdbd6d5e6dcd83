use relyo::constants::{
    COINBASE_MATURITY, DUST_THRESHOLD, EPOCH_DEPTH, MAX_MEMO_BYTES, PROTOCOL_VERSION, RLY_UNIT, TOTAL_SUPPLY,
};
use relyo::emission::EmissionSchedule;
use relyo::primitives::{
    format_rly, now_ms, DagNode, PeerInfo, PubKeyHash, RelyoError, Transaction, TransactionKind, TxHash, TxInput,
    TxOutput, TxStatus, UtxoEntry, UtxoId,
};

#[test]
fn test_txhash_deterministic() {
    let a = TxHash::hash(b"hello world");
    let b = TxHash::hash(b"hello world");
    assert_eq!(a, b);
}

#[test]
fn test_txhash_different_inputs() {
    let a = TxHash::hash(b"hello");
    let b = TxHash::hash(b"world");
    assert_ne!(a, b);
}

#[test]
fn test_txhash_zero() {
    assert!(TxHash::zero().is_zero());
    assert!(!TxHash::hash(b"x").is_zero());
}

#[test]
fn test_txhash_hex_roundtrip() {
    let h = TxHash::hash(b"test data");
    let hex = h.to_hex();
    let h2 = TxHash::from_hex(&hex).unwrap();
    assert_eq!(h, h2);
}

#[test]
fn test_txhash_leading_zeros() {
    let zero = TxHash::from_bytes([0u8; 32]);
    assert_eq!(zero.leading_zero_bits(), 256);

    let one = TxHash::from_bytes({
        let mut b = [0u8; 32];
        b[0] = 0x01;
        b
    });
    assert_eq!(one.leading_zero_bits(), 7);

    let half = TxHash::from_bytes({
        let mut b = [0u8; 32];
        b[0] = 0x80;
        b
    });
    assert_eq!(half.leading_zero_bits(), 0);
}

#[test]
fn leading_zeros_cross_byte_boundaries() {
    let mut b = [0u8; 32];
    b[1] = 0x10;
    assert_eq!(TxHash::from_bytes(b).leading_zero_bits(), 11);
}

#[test]
fn test_pubkeyhash_matches() {
    let pubkey = [42u8; 32];
    let pkh = PubKeyHash::from_pubkey_bytes(&pubkey);
    assert!(pkh.matches_pubkey(&pubkey));
    assert!(!pkh.matches_pubkey(&[99u8; 32]));
}

#[test]
fn hex_of_wrong_length_is_rejected() {
    assert!(TxHash::from_hex("abcd").is_err());
    assert!(TxHash::from_hex("zz").is_err());
    assert!(PubKeyHash::from_hex("00").is_err());
}

#[test]
fn test_utxoid_key_bytes_roundtrip() {
    let id = UtxoId::new(TxHash::hash(b"tx1"), 7);
    let key = id.to_key_bytes();
    let id2 = UtxoId::from_key_bytes(&key);
    assert_eq!(id, id2);
}

#[test]
fn utxoid_key_is_hash_then_little_endian_index() {
    let id = UtxoId::new(TxHash::from_bytes([3u8; 32]), 0x0102_0304);
    let key = id.to_key_bytes();
    assert_eq!(&key[..32], &[3u8; 32]);
    assert_eq!(&key[32..], &[4, 3, 2, 1]);
}

#[test]
fn test_dust_detection() {
    let dust = TxOutput::new(DUST_THRESHOLD - 1, PubKeyHash::from_bytes([0; 32]));
    assert!(dust.is_dust());

    let ok = TxOutput::new(DUST_THRESHOLD, PubKeyHash::from_bytes([0; 32]));
    assert!(!ok.is_dust());
}

#[test]
fn test_genesis_transaction_structure() {
    let tx = Transaction {
        version: PROTOCOL_VERSION,
        kind: TransactionKind::Genesis,
        inputs: vec![],
        outputs: vec![TxOutput::new(TOTAL_SUPPLY, PubKeyHash::from_pubkey_bytes(&[1u8; 32]))],
        dag_parents: vec![],
        timestamp: 0,
        fee: 0,
        memo: b"Relyo Genesis".to_vec(),
    };

    assert!(tx.is_genesis());
    assert!(!tx.is_coinbase());
    assert_eq!(tx.total_output(), TOTAL_SUPPLY);
    tx.validate_structure().unwrap();
}

#[test]
fn test_standard_tx_needs_inputs() {
    let tx = Transaction {
        version: PROTOCOL_VERSION,
        kind: TransactionKind::Standard,
        inputs: vec![],
        outputs: vec![TxOutput::new(1_000_000, PubKeyHash::from_bytes([0; 32]))],
        dag_parents: vec![TxHash::hash(b"p1"), TxHash::hash(b"p2")],
        timestamp: now_ms(),
        fee: 0,
        memo: vec![],
    };
    assert!(matches!(tx.validate_structure(), Err(RelyoError::NoInputs)));
}

#[test]
fn test_dust_output_rejected() {
    let tx = Transaction {
        version: PROTOCOL_VERSION,
        kind: TransactionKind::Genesis,
        inputs: vec![],
        outputs: vec![TxOutput::new(1, PubKeyHash::from_bytes([0; 32]))],
        dag_parents: vec![],
        timestamp: 0,
        fee: 0,
        memo: vec![],
    };
    assert!(matches!(tx.validate_structure(), Err(RelyoError::DustOutput { .. })));
}

#[test]
fn test_memo_too_large() {
    let tx = Transaction {
        version: PROTOCOL_VERSION,
        kind: TransactionKind::Genesis,
        inputs: vec![],
        outputs: vec![TxOutput::new(RLY_UNIT, PubKeyHash::from_bytes([0; 32]))],
        dag_parents: vec![],
        timestamp: 0,
        fee: 0,
        memo: vec![0u8; MAX_MEMO_BYTES + 1],
    };
    assert!(matches!(tx.validate_structure(), Err(RelyoError::MemoTooLarge { .. })));
}

#[test]
fn test_insufficient_parents() {
    let tx = Transaction {
        version: PROTOCOL_VERSION,
        kind: TransactionKind::Coinbase,
        inputs: vec![],
        outputs: vec![TxOutput::new(RLY_UNIT, PubKeyHash::from_bytes([0; 32]))],
        dag_parents: vec![TxHash::hash(b"only_one")],
        timestamp: now_ms(),
        fee: 0,
        memo: vec![],
    };
    assert!(matches!(tx.validate_structure(), Err(RelyoError::InsufficientParents { .. })));
}

#[test]
fn structure_errors_in_order() {
    let mut tx = Transaction {
        version: PROTOCOL_VERSION,
        kind: TransactionKind::Standard,
        inputs: vec![],
        outputs: vec![],
        dag_parents: vec![],
        timestamp: 0,
        fee: 0,
        memo: vec![],
    };
    assert!(matches!(tx.validate_structure(), Err(RelyoError::NoOutputs)));
    tx.outputs.push(TxOutput::new(RLY_UNIT, PubKeyHash::from_bytes([0; 32])));
    assert!(matches!(tx.validate_structure(), Err(RelyoError::NoInputs)));
    tx.inputs.push(TxInput {
        prev_output: UtxoId::new(TxHash::hash(b"prev"), 0),
        signature: vec![0u8; 64],
        pubkey: [1u8; 32],
    });
    assert!(matches!(tx.validate_structure(), Err(RelyoError::InsufficientParents { have: 0, need: 2 })));
    tx.kind = TransactionKind::Genesis;
    assert!(matches!(tx.validate_structure(), Err(RelyoError::CoinbaseWithInputs)));
    tx.version = PROTOCOL_VERSION + 1;
    assert!(matches!(tx.validate_structure(), Err(RelyoError::UnsupportedVersion(_))));
}

#[test]
fn test_tx_hash_excludes_signatures() {
    let base_input = TxInput {
        prev_output: UtxoId::new(TxHash::hash(b"prev"), 0),
        signature: [0u8; 64].to_vec(),
        pubkey: [1u8; 32],
    };

    let tx1 = Transaction {
        version: PROTOCOL_VERSION,
        kind: TransactionKind::Standard,
        inputs: vec![base_input.clone()],
        outputs: vec![TxOutput::new(50_000, PubKeyHash::from_bytes([9; 32]))],
        dag_parents: vec![TxHash::hash(b"p1"), TxHash::hash(b"p2")],
        timestamp: 12345,
        fee: 0,
        memo: vec![],
    };

    let mut tx2 = tx1.clone();
    tx2.inputs[0].signature = [0xFF; 64].to_vec();

    assert_eq!(tx1.hash(), tx2.hash());
}

#[test]
fn tx_hash_covers_the_amounts() {
    let tx1 = Transaction {
        version: PROTOCOL_VERSION,
        kind: TransactionKind::Genesis,
        inputs: vec![],
        outputs: vec![TxOutput::new(50_000, PubKeyHash::from_bytes([9; 32]))],
        dag_parents: vec![],
        timestamp: 1,
        fee: 0,
        memo: vec![],
    };
    let mut tx2 = tx1.clone();
    tx2.outputs[0].amount = 50_001;
    assert_ne!(tx1.hash(), tx2.hash());
}

#[test]
fn test_coinbase_maturity() {
    let entry = UtxoEntry {
        id: UtxoId::new(TxHash::hash(b"cb"), 0),
        output: TxOutput::new(RLY_UNIT, PubKeyHash::from_bytes([0; 32])),
        created_at_depth: 50,
        is_coinbase: true,
    };
    assert!(!entry.is_spendable_at_depth(50));
    assert!(!entry.is_spendable_at_depth(149));
    assert!(entry.is_spendable_at_depth(150));
    assert!(entry.is_spendable_at_depth(9999));
    assert_eq!(50 + COINBASE_MATURITY, 150);
}

#[test]
fn test_non_coinbase_immediately_spendable() {
    let entry = UtxoEntry {
        id: UtxoId::new(TxHash::hash(b"regular"), 0),
        output: TxOutput::new(RLY_UNIT, PubKeyHash::from_bytes([0; 32])),
        created_at_depth: 100,
        is_coinbase: false,
    };
    assert!(entry.is_spendable_at_depth(100));
}

#[test]
fn test_emission_decreasing() {
    let sched = EmissionSchedule::new();
    let r0 = sched.reward_at_epoch(0);
    let r1 = sched.reward_at_epoch(1);
    let r100 = sched.reward_at_epoch(100);

    assert!(r0 > 0);
    assert!(r1 < r0);
    assert!(r100 < r1);
}

#[test]
fn test_emission_approaches_zero() {
    let sched = EmissionSchedule::new();
    let r_far = sched.reward_at_epoch(100_000);
    assert_eq!(r_far, 0);
}

#[test]
fn test_emission_total_bounded() {
    let sched = EmissionSchedule::new();
    let total = sched.total_emitted_through_epoch(50_000);
    assert!(total <= TOTAL_SUPPLY);
}

#[test]
fn test_epoch_at_depth() {
    let sched = EmissionSchedule::new();
    assert_eq!(sched.epoch_at_depth(0), 0);
    assert_eq!(sched.epoch_at_depth(9_999), 0);
    assert_eq!(sched.epoch_at_depth(10_000), 1);
    assert_eq!(sched.epoch_at_depth(25_000), 2);
    assert_eq!(EPOCH_DEPTH, 10_000);
}

#[test]
fn emission_decays_by_the_factor_each_epoch() {
    let sched = EmissionSchedule::new();
    let r0 = sched.reward_at_epoch(0) as u128;
    let r1 = sched.reward_at_epoch(1) as u128;
    assert_eq!(r1, r0 * 9990 / 10_000);
    assert_eq!(sched.reward_at_depth(25_000), sched.reward_at_epoch(2));
    assert_eq!(sched.total_emitted_through_epoch(0), sched.reward_at_epoch(0));
    assert_eq!(
        sched.total_emitted_through_epoch(1),
        sched.reward_at_epoch(0) + sched.reward_at_epoch(1)
    );
}

#[test]
fn test_peer_banned() {
    let mut peer = PeerInfo {
        peer_id: "test".into(),
        addresses: vec![],
        pow_challenge: [0; 32],
        pow_solution: 0,
        last_seen: 0,
        reputation: 100,
        version: "1.0".into(),
        bytes_relayed: 0,
        valid_tx_relayed: 0,
        invalid_tx_relayed: 0,
    };
    assert!(!peer.is_banned());
    peer.reputation = -50;
    assert!(peer.is_banned());
}

#[test]
fn test_format_rly() {
    assert_eq!(format_rly(RLY_UNIT), "1 RLY");
    assert_eq!(format_rly(0), "0 RLY");
    assert_eq!(format_rly(RLY_UNIT / 2), "0.5 RLY");
    assert_eq!(format_rly(123_456_789 * RLY_UNIT), "123456789 RLY");
}

#[test]
fn format_rly_keeps_significant_fraction_digits() {
    assert_eq!(format_rly(1), "0.00000001 RLY");
    assert_eq!(format_rly(RLY_UNIT + 1_000), "1.00001 RLY");
    assert_eq!(format_rly(12 * RLY_UNIT + 34_000_000), "12.34 RLY");
}

#[test]
fn test_txstatus_display() {
    assert_eq!(TxStatus::Confirmed.to_text(), "confirmed");
    assert_eq!(TxStatus::Rejected.to_text(), "rejected");
}

#[test]
fn test_dagnode_confirmation_depth() {
    let tx = Transaction {
        version: PROTOCOL_VERSION,
        kind: TransactionKind::Genesis,
        inputs: vec![],
        outputs: vec![TxOutput::new(RLY_UNIT, PubKeyHash::from_bytes([0; 32]))],
        dag_parents: vec![],
        timestamp: 0,
        fee: 0,
        memo: vec![],
    };
    let node = DagNode::new(tx, 10, 10);
    assert_eq!(node.confirmation_depth(100), 90);
    assert_eq!(node.confirmation_depth(10), 0);
    assert_eq!(node.confirmation_depth(5), 0);
}

#[test]
fn test_pubkeyhash_display() {
    let pkh = PubKeyHash::from_pubkey_bytes(&[1u8; 32]);
    let s = pkh.to_text();
    assert!(s.starts_with("rly1"));
}

#[test]
fn test_error_display() {
    let err = RelyoError::DustOutput { index: 0, amount: 100, threshold: DUST_THRESHOLD };
    let msg = err.message();
    assert!(msg.contains("dust"));
    assert_eq!(msg, "dust output at index 0: 100 < threshold 1000");
}

#[test]
fn error_messages_name_their_values() {
    let id = UtxoId::new(TxHash([0xab; 32]), 7);
    assert_eq!(id.to_text(), format!("{}:7", "ab".repeat(32)));
    assert_eq!(RelyoError::UtxoNotFound(id).message(), format!("UTXO not found: {}:7", "ab".repeat(32)));
    assert_eq!(RelyoError::Other("plain".to_string()).message(), "plain");
    assert_eq!(
        RelyoError::InsufficientFunds { input_total: 5, output_total: 4, fee: 2 }.message(),
        "input total 5 < output total 4 + fee 2"
    );
}

#[test]
fn checked_emission_reports_overflow() {
    let s = EmissionSchedule::new();
    assert_eq!(s.checked_reward_at_epoch(0), Some(s.initial_reward));
    assert_eq!(s.checked_reward_at_epoch(5), Some(s.reward_at_epoch(5)));
    assert_eq!(s.checked_total_emitted_through_epoch(3), Some(s.total_emitted_through_epoch(3)));
    let wild = EmissionSchedule { total_supply: u64::MAX, initial_reward: u64::MAX, decay_factor_bps: u64::MAX, epoch_depth: 1 };
    assert!(wild.schedule_fits(1));
    assert!(wild.checked_reward_at_epoch(1).is_some());
    assert!(!wild.schedule_fits(2));
    assert_eq!(wild.checked_reward_at_epoch(2), None);
    assert_eq!(wild.checked_total_emitted_through_epoch(2), None);
}

/// The same fields as a transaction, in order, as plain serde values: bincode
/// writes a struct exactly as the tuple of its fields and a unit variant as its
/// `u32` index.
type WireTx = (u8, u32, Vec<((([u8; 32],), u32), Vec<u8>, [u8; 32])>, Vec<(u64, ([u8; 32],))>, Vec<([u8; 32],)>, u64, u64, Vec<u8>);

fn wire_of(tx: &Transaction, kind_index: u32) -> WireTx {
    (
        tx.version,
        kind_index,
        tx.inputs.iter().map(|i| (((i.prev_output.tx_hash.0,), i.prev_output.output_index), i.signature.clone(), i.pubkey)).collect(),
        tx.outputs.iter().map(|o| (o.amount, (o.pubkey_hash.0,))).collect(),
        tx.dag_parents.iter().map(|h| (h.0,)).collect(),
        tx.timestamp,
        tx.fee,
        tx.memo.clone(),
    )
}

#[test]
fn encoded_size_matches_bincode() {
    let standard = Transaction {
        version: PROTOCOL_VERSION,
        kind: TransactionKind::Standard,
        inputs: vec![
            TxInput { prev_output: UtxoId::new(TxHash([3u8; 32]), 1), signature: vec![9u8; 64], pubkey: [4u8; 32] },
            TxInput { prev_output: UtxoId::new(TxHash([5u8; 32]), 0), signature: vec![], pubkey: [6u8; 32] },
        ],
        outputs: vec![
            TxOutput::new(1_000_000, PubKeyHash::from_bytes([7u8; 32])),
            TxOutput::new(2_000, PubKeyHash::from_bytes([8u8; 32])),
        ],
        dag_parents: vec![TxHash([1u8; 32]), TxHash([2u8; 32])],
        timestamp: 1_700_000_000_000,
        fee: 10,
        memo: b"memo bytes".to_vec(),
    };
    assert_eq!(standard.encoded_size(), bincode::serialized_size(&wire_of(&standard, 0)).unwrap());
    let genesis = Transaction {
        version: PROTOCOL_VERSION,
        kind: TransactionKind::Genesis,
        inputs: vec![],
        outputs: vec![TxOutput::new(TOTAL_SUPPLY, PubKeyHash::from_bytes([1u8; 32]))],
        dag_parents: vec![],
        timestamp: 0,
        fee: 0,
        memo: b"Relyo Genesis".to_vec(),
    };
    assert_eq!(genesis.encoded_size(), bincode::serialized_size(&wire_of(&genesis, 2)).unwrap());
}
