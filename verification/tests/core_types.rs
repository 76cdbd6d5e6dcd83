use relyo::types::{NodeId, PeerScore, SlashingOffense, StakingConfig};

#[test]
fn test_slashing_penalties() {
    assert_eq!(SlashingOffense::DoubleVote.penalty_bps(), 5000);
    assert_eq!(SlashingOffense::ExtendedDowntime.penalty_bps(), 500);
    assert!(SlashingOffense::DoubleVote.penalty_bps() > SlashingOffense::ExtendedDowntime.penalty_bps());
}

#[test]
fn test_staking_config_defaults() {
    let config = StakingConfig::default();
    assert_eq!(config.min_stake, 10_000 * 100_000_000);
    assert_eq!(config.max_validators, 1000);
}

#[test]
fn test_peer_score_default() {
    let score = PeerScore::default();
    assert_eq!(score.reputation, 100);
    assert!(score.banned_until.is_none());
}

#[test]
fn other_penalties_and_node_ids() {
    assert_eq!(SlashingOffense::InvalidBlock.penalty_bps(), 3000);
    assert_eq!(SlashingOffense::CensorTransaction.penalty_bps(), 1000);
    let a = NodeId::new("node-1");
    let b = NodeId::new("node-1");
    let c = NodeId::new("node-2");
    assert!(a.same(&b));
    assert!(!a.same(&c));
    assert_eq!(a.as_str(), "node-1");
}
