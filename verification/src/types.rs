//! Shared protocol types: node ids, validators, staking parameters, checkpoints,
//! peer scores, slashing offenses and bandwidth counters.
use vstd::prelude::*;
use crate::constants::RLY_UNIT;

pub use crate::primitives::now_ms;

verus! {

/// Unique identifier of a node in the network.
#[derive(Debug)]
pub struct NodeId(pub String);

impl View for NodeId {
    type V = Seq<char>;

    open spec fn view(&self) -> Seq<char> {
        self.0@
    }
}

impl NodeId {
    /// A node id with the given text.
    pub fn new(id: &str) -> (n: Self)
        ensures
            n@ == id@,
    {
        NodeId(String::from_str(id))
    }

    /// The id's text.
    pub fn as_str(&self) -> (s: &str)
        ensures
            s@ == self@,
    {
        self.0.as_str()
    }

    /// Whether two ids have the same text.
    pub fn same(&self, other: &Self) -> (b: bool)
        ensures
            b == (self@ == other@),
    {
        self.0 == other.0
    }
}

impl Clone for NodeId {
    fn clone(&self) -> (c: Self)
        ensures
            c@ == self@,
    {
        NodeId(self.0.clone())
    }
}

impl PartialEq for NodeId {
    fn eq(&self, other: &Self) -> (b: bool) {
        self.0 == other.0
    }
}

impl vstd::std_specs::cmp::PartialEqSpecImpl for NodeId {
    open spec fn obeys_eq_spec() -> bool {
        true
    }

    open spec fn eq_spec(&self, other: &Self) -> bool {
        self@ == other@
    }
}

impl Eq for NodeId {}

/// Validator information of the staking system.
#[derive(Debug, Clone)]
pub struct ValidatorInfo {
    pub node_id: NodeId,
    pub stake_amount: u64,
    pub is_active: bool,
    pub slash_count: u32,
    pub registered_at: u64,
    pub last_heartbeat: u64,
    pub accumulated_rewards: u64,
}

/// Staking parameters.
#[derive(Debug, Clone)]
pub struct StakingConfig {
    pub min_stake: u64,
    pub lock_period_epochs: u64,
    pub lock_period_days: u64,
    pub slash_penalty_bps: u64,
    pub max_validators: usize,
    pub unbonding_epochs: u64,
}

impl Default for StakingConfig {
    fn default() -> (c: Self)
        ensures
            c.min_stake == 10_000 * RLY_UNIT,
            c.lock_period_epochs == 10,
            c.lock_period_days == 30,
            c.slash_penalty_bps == 1000,
            c.max_validators == 1000,
            c.unbonding_epochs == 5,
    {
        StakingConfig {
            min_stake: 10_000 * RLY_UNIT,
            lock_period_epochs: 10,
            lock_period_days: 30,
            slash_penalty_bps: 1000,
            max_validators: 1000,
            unbonding_epochs: 5,
        }
    }
}

/// A checkpoint of the network state.
#[derive(Debug, Clone)]
pub struct Checkpoint {
    pub epoch: u64,
    pub dag_depth: u64,
    pub merkle_root: [u8; 32],
    pub state_hash: [u8; 32],
    pub timestamp: u64,
    pub transaction_count: u64,
    pub validator_signatures: Vec<(NodeId, Vec<u8>)>,
}

/// Reputation of a peer.
#[derive(Debug, Clone)]
pub struct PeerScore {
    pub reputation: i64,
    pub good_responses: u64,
    pub bad_responses: u64,
    pub invalid_messages: u64,
    pub latency_ms_avg: u64,
    pub bytes_served: u64,
    pub banned_until: Option<u64>,
}

impl Default for PeerScore {
    fn default() -> (s: Self)
        ensures
            s.reputation == 100,
            s.good_responses == 0,
            s.bad_responses == 0,
            s.invalid_messages == 0,
            s.latency_ms_avg == 0,
            s.bytes_served == 0,
            s.banned_until is None,
    {
        PeerScore {
            reputation: 100,
            good_responses: 0,
            bad_responses: 0,
            invalid_messages: 0,
            latency_ms_avg: 0,
            bytes_served: 0,
            banned_until: None,
        }
    }
}

/// Kinds of slashable misbehaviour.
#[derive(Debug, Clone, Copy, PartialEq, Eq, Structural)]
pub enum SlashingOffense {
    DoubleVote,
    ExtendedDowntime,
    InvalidBlock,
    CensorTransaction,
}

/// The penalty of an offense, in basis points of the stake.
pub open spec fn penalty_of(o: SlashingOffense) -> u64 {
    match o {
        SlashingOffense::DoubleVote => 5000,
        SlashingOffense::ExtendedDowntime => 500,
        SlashingOffense::InvalidBlock => 3000,
        SlashingOffense::CensorTransaction => 1000,
    }
}

impl SlashingOffense {
    /// The penalty in basis points of the validator's stake.
    pub fn penalty_bps(&self) -> (p: u64)
        ensures
            p == penalty_of(*self),
    {
        match self {
            SlashingOffense::DoubleVote => 5000,
            SlashingOffense::ExtendedDowntime => 500,
            SlashingOffense::InvalidBlock => 3000,
            SlashingOffense::CensorTransaction => 1000,
        }
    }
}

/// A counter carried as a plain number.
#[derive(Debug, Clone, Default)]
pub struct AtomicU64Wrapper(pub u64);

/// Bandwidth counters of a peer.
#[derive(Debug, Clone, Default)]
pub struct BandwidthStats {
    pub bytes_sent: AtomicU64Wrapper,
    pub bytes_received: AtomicU64Wrapper,
    pub messages_sent: AtomicU64Wrapper,
    pub messages_received: AtomicU64Wrapper,
}

/// Epoch number of consensus rounds.
pub type Epoch = u64;

/// Milliseconds since the UNIX epoch.
pub type Timestamp = u64;

} // verus!
