use relyo::crypto::KeyPair;
use relyo::netconfig::{NetworkConfig, PeerScoringConfig};
use relyo::peers::{bucket_for_address, PeerManager};

fn random_peer_id() -> String {
    KeyPair::generate().public_key.to_hex()
}

#[test]
fn test_default_config() {
    let config = NetworkConfig::default();
    assert_eq!(config.tcp_port, 9741);
    assert_eq!(config.quic_port, 9740);
    assert_eq!(config.ban_duration_secs, 3600);
    assert_eq!(config.sync_batch_size, 500);
    assert_eq!(config.max_concurrent_syncs, 5);
    assert_eq!(config.heartbeat_interval_secs, 30);
    assert_eq!(config.connection_timeout_secs, 10);
    assert_eq!(config.max_inbound_connections, 100);
    assert_eq!(config.max_outbound_connections, 50);
    assert!(config.validate().is_ok());
}

#[test]
fn test_multiaddr_building() {
    let config = NetworkConfig::default();
    assert_eq!(config.tcp_multiaddr(), "/ip4/0.0.0.0/tcp/9741");
    assert_eq!(config.quic_multiaddr(), "/ip4/0.0.0.0/udp/9740/quic-v1");
}

#[test]
fn test_max_total_connections() {
    let config = NetworkConfig::default();
    assert_eq!(config.max_total_connections(), 150);
}

#[test]
fn test_peer_scoring_defaults() {
    let scoring = PeerScoringConfig::default();
    assert_eq!(scoring.valid_transaction_weight, 2);
    assert_eq!(scoring.invalid_transaction_weight, -10);
    assert_eq!(scoring.protocol_violation_weight, -50);
    assert_eq!(scoring.ban_threshold, -100);
    assert_eq!(scoring.initial_reputation, 100);
}

#[test]
fn test_validation_same_ports() {
    let config = NetworkConfig { tcp_port: 9740, quic_port: 9740, ..Default::default() };
    assert!(config.validate().is_err());
}

#[test]
fn test_validation_zero_max_peers() {
    let config = NetworkConfig { max_peers: 0, ..Default::default() };
    assert!(config.validate().is_err());
}

#[test]
fn test_add_remove_peer() {
    let mut pm = PeerManager::new(10);
    let peer = random_peer_id();
    assert!(pm.add_peer(peer.clone(), "/ip4/127.0.0.1/tcp/9741".into()));
    assert_eq!(pm.peer_count(), 1);
    assert!(pm.is_connected(&peer));
    pm.remove_peer(&peer);
    assert_eq!(pm.peer_count(), 0);
}

#[test]
fn test_max_peers() {
    let mut pm = PeerManager::new(2);
    assert!(pm.add_peer(random_peer_id(), "a".into()));
    assert!(pm.add_peer(random_peer_id(), "b".into()));
    assert!(!pm.add_peer(random_peer_id(), "c".into()));
}

#[test]
fn test_bandwidth_tracking() {
    let mut pm = PeerManager::new(10);
    let peer = random_peer_id();
    pm.add_peer(peer.clone(), "addr".into());
    pm.record_sent(&peer, 1000);
    pm.record_received(&peer, 2000);
    assert_eq!(pm.total_bandwidth(), 3000);
}

#[test]
fn test_rejects_too_many_from_same_bucket() {
    let mut pm = PeerManager::with_limits(10, 2);
    assert!(pm.add_peer(random_peer_id(), "/ip4/10.1.2.3/tcp/9001".into()));
    assert!(pm.add_peer(random_peer_id(), "/ip4/10.1.2.4/tcp/9002".into()));
    assert!(!pm.add_peer(random_peer_id(), "/ip4/10.1.2.99/tcp/9003".into()));
}

#[test]
fn buckets_group_by_first_three_octets() {
    assert_eq!(bucket_for_address("/ip4/10.1.2.3/tcp/9001"), "10.1.2");
    assert_eq!(bucket_for_address("/ip4/10.1.2.3/tcp/9001"), bucket_for_address("/ip4/10.1.2.99/tcp/1"));
    assert_ne!(bucket_for_address("/ip4/10.1.2.3/tcp/9001"), bucket_for_address("/ip4/10.1.3.3/tcp/9001"));
    assert_eq!(bucket_for_address("addr"), "addr");
}

#[test]
fn validation_messages_and_duplicate_peers() {
    let config = NetworkConfig { sync_batch_size: 0, ..Default::default() };
    assert_eq!(config.validate(), Err("sync_batch_size must be greater than zero".to_string()));
    let config = NetworkConfig { tcp_port: 1, quic_port: 1, ..Default::default() };
    assert_eq!(config.validate(), Err("TCP and QUIC ports must be different".to_string()));
    let mut pm = PeerManager::new(1);
    let p = random_peer_id();
    assert!(pm.add_peer(p.clone(), "x".into()));
    assert!(pm.add_peer(p.clone(), "y".into()));
    assert_eq!(pm.peer_count(), 1);
    assert_eq!(pm.connected_peers(), vec![p.clone()]);
    assert!(pm.get_peer(&p).is_some());
    assert_eq!(pm.sample_peers(5).len(), 1);
}

#[test]
fn touch_at_stamps_only_the_known_peer() {
    let pm = &mut PeerManager::new(50);
    let peer = random_peer_id();
    assert!(pm.add_peer(peer.clone(), "/ip4/10.0.0.1/tcp/9741".into()));
    pm.touch_at(&peer, 42);
    assert_eq!(pm.get_peer(&peer).unwrap().last_seen, 42);
    let unknown = random_peer_id();
    pm.touch_at(&unknown, 7);
    assert!(pm.get_peer(&unknown).is_none());
    assert_eq!(pm.peer_count(), 1);
}
