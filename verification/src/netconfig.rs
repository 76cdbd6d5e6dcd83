//! Network configuration (ports, limits, peer scoring weights) and the message
//! envelope nodes exchange.
use vstd::prelude::*;
use std::path::PathBuf;
use crate::primitives::now_ms;
use crate::token::{decimal, decimal_string};
use crate::transaction::TransactionHash;

verus! {

#[verifier::external_type_specification]
#[verifier::external_body]
pub struct ExPathBuf(PathBuf);

/// `PathBuf::clone`: nothing is stated of the copy.
pub assume_specification[ <PathBuf as Clone>::clone ](p: &PathBuf) -> PathBuf;

/// `PathBuf::from`: the path of a text. Nothing is stated of the path.
#[verifier::external_body]
fn path_from(s: &str) -> PathBuf {
    PathBuf::from(s)
}

/// Reputation weights of peer behaviours.
#[derive(Debug, Clone)]
pub struct PeerScoringConfig {
    /// Awarded for relaying a valid transaction.
    pub valid_transaction_weight: i64,
    /// Penalty for an invalid transaction.
    pub invalid_transaction_weight: i64,
    /// Awarded for a timely response.
    pub timely_response_weight: i64,
    /// Penalty for a slow response.
    pub slow_response_weight: i64,
    /// Penalty for an invalid message.
    pub invalid_message_weight: i64,
    /// Awarded for a good sync session.
    pub good_sync_weight: i64,
    /// Penalty for a protocol violation.
    pub protocol_violation_weight: i64,
    /// Reputation below which a peer is banned.
    pub ban_threshold: i64,
    /// Reputation of a new peer.
    pub initial_reputation: i64,
}

/// Whether a scoring configuration holds the default weights.
pub open spec fn default_scoring(c: PeerScoringConfig) -> bool {
    &&& c.valid_transaction_weight == 2
    &&& c.invalid_transaction_weight == -10
    &&& c.timely_response_weight == 1
    &&& c.slow_response_weight == -1
    &&& c.invalid_message_weight == -20
    &&& c.good_sync_weight == 5
    &&& c.protocol_violation_weight == -50
    &&& c.ban_threshold == -100
    &&& c.initial_reputation == 100
}

impl Default for PeerScoringConfig {
    fn default() -> (c: Self)
        ensures
            c.valid_transaction_weight == 2,
            c.invalid_transaction_weight == -10,
            c.timely_response_weight == 1,
            c.slow_response_weight == -1,
            c.invalid_message_weight == -20,
            c.good_sync_weight == 5,
            c.protocol_violation_weight == -50,
            c.ban_threshold == -100,
            c.initial_reputation == 100,
    {
        PeerScoringConfig {
            valid_transaction_weight: 2,
            invalid_transaction_weight: -10,
            timely_response_weight: 1,
            slow_response_weight: -1,
            invalid_message_weight: -20,
            good_sync_weight: 5,
            protocol_violation_weight: -50,
            ban_threshold: -100,
            initial_reputation: 100,
        }
    }
}

/// Network configuration of a node.
#[derive(Debug, Clone)]
pub struct NetworkConfig {
    /// Listen address (multiaddr, e.g. `/ip4/0.0.0.0`).
    pub listen_addr: String,
    /// External address to advertise.
    pub external_addr: Option<String>,
    /// Bootstrap peers (multiaddrs).
    pub bootstrap_peers: Vec<String>,
    /// Maximum connected peers.
    pub max_peers: usize,
    /// QUIC port.
    pub quic_port: u16,
    /// TCP port.
    pub tcp_port: u16,
    /// Gossipsub heartbeat (ms).
    pub gossip_heartbeat_ms: u64,
    /// Where the node's identity keypair is stored.
    pub identity_path: PathBuf,
    /// Peer scoring weights.
    pub peer_scoring: PeerScoringConfig,
    /// How long a ban lasts (s).
    pub ban_duration_secs: u64,
    /// Transactions per sync batch.
    pub sync_batch_size: usize,
    /// Concurrent sync sessions.
    pub max_concurrent_syncs: usize,
    /// Heartbeat interval (s).
    pub heartbeat_interval_secs: u64,
    /// Connection timeout (s).
    pub connection_timeout_secs: u64,
    /// Maximum inbound connections.
    pub max_inbound_connections: usize,
    /// Maximum outbound connections.
    pub max_outbound_connections: usize,
}

/// The first configuration problem found, if any.
pub open spec fn config_problem(c: NetworkConfig) -> Option<Seq<char>> {
    if c.tcp_port == c.quic_port {
        Some("TCP and QUIC ports must be different"@)
    } else if c.max_peers == 0 {
        Some("max_peers must be greater than zero"@)
    } else if c.sync_batch_size == 0 {
        Some("sync_batch_size must be greater than zero"@)
    } else if c.heartbeat_interval_secs == 0 {
        Some("heartbeat_interval_secs must be greater than zero"@)
    } else if c.connection_timeout_secs == 0 {
        Some("connection_timeout_secs must be greater than zero"@)
    } else {
        None
    }
}

impl NetworkConfig {
    /// The default configuration: ports 9741 (TCP) and 9740 (QUIC), three seed
    /// peers, 50 peers, 100 inbound and 50 outbound connections.
    pub fn default_config() -> (c: Self)
        ensures
            c.listen_addr@ == "/ip4/0.0.0.0"@,
            c.external_addr is None,
            c.bootstrap_peers@.len() == 3,
            c.bootstrap_peers@[0]@ == "/dns/seed1.relyo.network/tcp/9741"@,
            c.bootstrap_peers@[1]@ == "/dns/seed2.relyo.network/tcp/9741"@,
            c.bootstrap_peers@[2]@ == "/dns/seed3.relyo.network/tcp/9741"@,
            c.max_peers == 50,
            c.quic_port == 9740,
            c.tcp_port == 9741,
            c.gossip_heartbeat_ms == 700,
            c.ban_duration_secs == 3600,
            c.sync_batch_size == 500,
            c.max_concurrent_syncs == 5,
            c.heartbeat_interval_secs == 30,
            c.connection_timeout_secs == 10,
            c.max_inbound_connections == 100,
            c.max_outbound_connections == 50,
            default_scoring(c.peer_scoring),
            config_problem(c) is None,
    {
        let mut bootstrap_peers: Vec<String> = Vec::new();
        bootstrap_peers.push(String::from_str("/dns/seed1.relyo.network/tcp/9741"));
        bootstrap_peers.push(String::from_str("/dns/seed2.relyo.network/tcp/9741"));
        bootstrap_peers.push(String::from_str("/dns/seed3.relyo.network/tcp/9741"));
        NetworkConfig {
            listen_addr: String::from_str("/ip4/0.0.0.0"),
            external_addr: None,
            bootstrap_peers,
            max_peers: 50,
            quic_port: 9740,
            tcp_port: 9741,
            gossip_heartbeat_ms: 700,
            identity_path: path_from("node_identity.key"),
            peer_scoring: PeerScoringConfig::default(),
            ban_duration_secs: 3600,
            sync_batch_size: 500,
            max_concurrent_syncs: 5,
            heartbeat_interval_secs: 30,
            connection_timeout_secs: 10,
            max_inbound_connections: 100,
            max_outbound_connections: 50,
        }
    }

    /// The TCP multiaddr: the listen address, `/tcp/`, the TCP port.
    pub fn tcp_multiaddr(&self) -> (s: String)
        ensures
            s@ == self.listen_addr@ + "/tcp/"@ + decimal(self.tcp_port as nat),
    {
        let mut s = self.listen_addr.clone();
        s.append("/tcp/");
        s.append(decimal_string(self.tcp_port as u64).as_str());
        s
    }

    /// The QUIC multiaddr: the listen address, `/udp/`, the QUIC port, `/quic-v1`.
    pub fn quic_multiaddr(&self) -> (s: String)
        ensures
            s@ == self.listen_addr@ + "/udp/"@ + decimal(self.quic_port as nat) + "/quic-v1"@,
    {
        let mut s = self.listen_addr.clone();
        s.append("/udp/");
        s.append(decimal_string(self.quic_port as u64).as_str());
        s.append("/quic-v1");
        s
    }

    /// Inbound plus outbound connections.
    pub fn max_total_connections(&self) -> (n: usize)
        requires
            self.max_inbound_connections + self.max_outbound_connections <= usize::MAX,
        ensures
            n == self.max_inbound_connections + self.max_outbound_connections,
    {
        self.max_inbound_connections + self.max_outbound_connections
    }

    /// Check the configuration: `Err` with the first problem found.
    pub fn validate(&self) -> (res: core::result::Result<(), String>)
        ensures
            config_problem(*self) is None ==> res is Ok,
            config_problem(*self) matches Some(m) ==> res matches Err(e) && e@ == m,
    {
        if self.tcp_port == self.quic_port {
            return Err(String::from_str("TCP and QUIC ports must be different"));
        }
        if self.max_peers == 0 {
            return Err(String::from_str("max_peers must be greater than zero"));
        }
        if self.sync_batch_size == 0 {
            return Err(String::from_str("sync_batch_size must be greater than zero"));
        }
        if self.heartbeat_interval_secs == 0 {
            return Err(String::from_str("heartbeat_interval_secs must be greater than zero"));
        }
        if self.connection_timeout_secs == 0 {
            return Err(String::from_str("connection_timeout_secs must be greater than zero"));
        }
        Ok(())
    }
}

impl Default for NetworkConfig {
    fn default() -> (c: Self)
        ensures
            c.listen_addr@ == "/ip4/0.0.0.0"@,
            c.external_addr is None,
            c.bootstrap_peers@.len() == 3,
            c.bootstrap_peers@[0]@ == "/dns/seed1.relyo.network/tcp/9741"@,
            c.bootstrap_peers@[1]@ == "/dns/seed2.relyo.network/tcp/9741"@,
            c.bootstrap_peers@[2]@ == "/dns/seed3.relyo.network/tcp/9741"@,
            c.max_peers == 50,
            c.quic_port == 9740,
            c.tcp_port == 9741,
            c.gossip_heartbeat_ms == 700,
            c.ban_duration_secs == 3600,
            c.sync_batch_size == 500,
            c.max_concurrent_syncs == 5,
            c.heartbeat_interval_secs == 30,
            c.connection_timeout_secs == 10,
            c.max_inbound_connections == 100,
            c.max_outbound_connections == 50,
            default_scoring(c.peer_scoring),
            config_problem(c) is None,
    {
        Self::default_config()
    }
}

/// Kinds of messages exchanged between nodes.
#[derive(Debug, Clone, Copy, PartialEq, Eq, Structural)]
pub enum MessageType {
    TransactionBroadcast,
    VoteRequest,
    VoteResponse,
    TransactionRequest,
    TransactionResponse,
    Heartbeat,
    TipRequest,
    TipResponse,
}

/// A message with a typed payload.
#[derive(Debug, Clone)]
pub struct NetworkMessage {
    pub msg_type: MessageType,
    pub payload: Vec<u8>,
    pub timestamp: u64,
}

impl NetworkMessage {
    /// A message stamped with the current time.
    pub fn new(msg_type: MessageType, payload: Vec<u8>) -> (m: Self)
        ensures
            m.msg_type == msg_type,
            m.payload@ == payload@,
    {
        NetworkMessage { msg_type, payload, timestamp: now_ms() }
    }
}

/// The payload of a vote response.
#[derive(Debug, Clone)]
pub struct VotePayload {
    pub tx_hash: TransactionHash,
    pub accept: bool,
    pub node_id: String,
}

/// A node's periodic heartbeat.
#[derive(Debug, Clone)]
pub struct NodeHeartbeat {
    pub node_id: String,
    pub dag_size: u64,
    pub mempool_size: u64,
    pub peers: u64,
    pub uptime_secs: u64,
    pub version: String,
}

/// Failures while building the gossip layer of the swarm.
pub enum SwarmError {
    GossipsubConfig(String),
    GossipsubBuild(String),
}

} // verus!
