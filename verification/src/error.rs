//! Error type shared by the account-model protocol modules.
use vstd::prelude::*;

verus! {

/// Every failure of the account-model ledger, wallet and consensus code.
#[derive(Debug, Clone)]
pub enum RelyoError {
    Crypto(String),
    InvalidSignature,
    BatchVerifyError { count: usize, total: usize },
    InvalidAddress(String),
    InvalidTransaction(String),
    InsufficientBalance { have: u64, need: u64 },
    DuplicateNonce(u64),
    SupplyCapExceeded(String),
    InvalidParent(String),
    TransactionNotFound(String),
    DoubleSpend(String),
    Dag(String),
    Consensus(String),
    Network(String),
    Storage(String),
    Serialization(String),
    RateLimitExceeded(String),
    NodeNotFound(String),
    Config(String),
    Wallet(String),
    GenesisExists,
    Timeout(u64),
    Overflow(String),
    MerkleError(String),
    SnapshotError(String),
    StakingError(String),
    SlashingError(String),
    FeeMarketError(String),
    PowError(String),
    CheckpointError(String),
    ChannelClosed,
    PeerError(String),
    SyncError(String),
}

/// Result alias used across the account-model modules.
pub type Result<T> = core::result::Result<T, RelyoError>;

} // verus!
