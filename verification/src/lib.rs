//! Relyo: a blockless DAG payment ledger with proof-of-stake voting.
//!
//! The verified core of the protocol: addresses, hashing, Merkle proofs,
//! transactions and their validation, the emission schedule, the ledger
//! state, the DAG, the mempool, conflict detection and vote aggregation.
pub mod constants;
pub mod error;
pub mod codec;
pub mod bytes;
pub mod crypto;
pub mod address;
pub mod merkle;
pub mod primitives;
pub mod token;
pub mod emission;
pub mod keyorder;
pub mod tables;
pub mod state;
pub mod transaction;
pub mod dag_tables;
pub mod conflict;
pub mod tips;
pub mod graph;
pub mod types;
pub mod vote;
pub mod engine;
pub mod textscan;
pub mod peers;
pub mod mempool;
pub mod checkpoint;
pub mod netconfig;
pub mod epochs;
pub mod rate_limiter;
pub mod genesis;
pub mod node;
pub mod traversal;
pub mod keystore;
pub mod wallet;
pub mod client;
pub mod merchant;
pub mod explorer;
pub mod rewards;
pub mod db_options;
pub mod rpc;
pub mod consensus_check;
