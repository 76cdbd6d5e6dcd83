use relyo::constants::RLY_UNIT;
use relyo::primitives::rly_to_base;
use relyo::token::{relyo_config, relyo_distribution, rly_whole_to_base, BASE_FEE};

#[test]
fn test_distribution_sums_to_1000() {
    let d = relyo_distribution();
    let total = d.node_rewards_permille;
    assert_eq!(total, 1000);
}

#[test]
fn test_fee_shares() {
    let c = relyo_config();
    assert_eq!(c.validator_fee_share_bps, 10_000);
}

#[test]
fn whole_rly_conversions() {
    assert_eq!(rly_whole_to_base(1), RLY_UNIT);
    assert_eq!(rly_whole_to_base(25_000_000_000), relyo_config().total_supply);
    assert_eq!(rly_whole_to_base(u64::MAX), u64::MAX);
    assert_eq!(rly_to_base(3), 3 * RLY_UNIT);
    assert_eq!(rly_to_base(u64::MAX / 2), u64::MAX);
}

#[test]
fn config_values() {
    let c = relyo_config();
    assert_eq!(c.name, "Relyo");
    assert_eq!(c.ticker, "RLY");
    assert_eq!(c.base_fee, RLY_UNIT / 100);
    assert_eq!(c.base_fee, BASE_FEE);
    assert_eq!(c.daily_reward_emission, 187_500 * RLY_UNIT);
    assert_eq!(c.reward_timeline_years, 256);
    assert_eq!(c.decimals, 8);
}
