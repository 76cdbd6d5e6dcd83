//! Consensus-critical constants.
use vstd::prelude::*;

verus! {

/// Number of decimal places of one RLY.
pub const RLY_DECIMALS: u8 = 8;
/// Base units per RLY.
pub const RLY_UNIT: u64 = 100_000_000;
/// The supply cap in base units.
pub const TOTAL_SUPPLY: u64 = 25_000_000_000 * RLY_UNIT;
/// Outputs below this amount are dust.
pub const DUST_THRESHOLD: u64 = 1_000;
/// Depth a coinbase output must wait before it can be spent.
pub const COINBASE_MATURITY: u64 = 100;
/// Parents every non-genesis DAG vertex must reference.
pub const MIN_DAG_PARENTS: usize = 2;
/// Largest memo in bytes.
pub const MAX_MEMO_BYTES: usize = 256;
/// DAG depths per emission epoch.
pub const EPOCH_DEPTH: u64 = 10_000;
/// Per-epoch emission decay in basis points.
pub const DECAY_FACTOR_BPS: u64 = 9990;
/// Length of the emission timeline in years.
pub const EMISSION_YEARS: u32 = 256;
/// Protocol version.
pub const PROTOCOL_VERSION: u8 = 1;
/// Largest encoded transaction in bytes.
pub const MAX_TX_SIZE: usize = 100_000;
/// Chain identifier mixed into every signature.
pub const CHAIN_ID: u32 = 1;

} // verus!
