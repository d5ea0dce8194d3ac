use malachitebft::bytes::ShortBytes;
use malachitebft::discovery::state::{
    BootstrapProtocol, Config as DiscoveryConfig, ConnectionDirection, ConnectionInfo, Discovery,
};
use malachitebft::engine::event::PeerId;
use malachitebft::ident::OrdMap;
use malachitebft::network::metrics::{Metrics, MAX_PEER_SLOTS};
use malachitebft::network::multiaddr::Multiaddr;
use malachitebft::network::peer::{
    peer_id_to_text, LocalNodeInfo, PeerInfo, PeerType, Score, Scores, ValidatorInfo,
};
use malachitebft::network::peers::PersistentPeerError;
use malachitebft::network::state::{Action, Mesh, State};
use prometheus_client::encoding::text::encode;
use prometheus_client::registry::Registry;

type TestState = State<(), &'static str>;

/// A peer identifier that the peer-to-peer layer accepts.
fn peer(n: u16) -> PeerId {
    let mut bytes = vec![0x12, 0x20];
    bytes.extend_from_slice(&[7; 30]);
    bytes.extend_from_slice(&n.to_be_bytes());
    ShortBytes::from_slice(&bytes).unwrap()
}

fn addr(text: &str) -> Multiaddr {
    Multiaddr::parse(text).unwrap()
}

/// The position of a score in the total order of floating-point numbers.
fn score(x: f64) -> Score {
    let bits = x.to_bits() as i64;
    Score { order: bits ^ (((bits >> 63) as u64) >> 1) as i64, whole: x as i64 }
}

fn validator_score() -> Score {
    score(100.0)
}

fn full_node_score() -> Score {
    score(10.0)
}

fn scores() -> Scores {
    Scores {
        validator: validator_score(),
        persistent_peer: score(50.0),
        full_node: full_node_score(),
        unidentified: score(1.0),
    }
}

fn local_node(consensus_address: Option<&str>) -> LocalNodeInfo {
    LocalNodeInfo {
        moniker: "test-node".to_string(),
        peer_id: peer(0),
        listen_addr: addr("/ip4/127.0.0.1/tcp/26656"),
        consensus_address: consensus_address.map(|s| s.to_string()),
        proof_bytes: None,
        is_validator: false,
        persistent_peers_only: false,
        subscribed_topics: Vec::new(),
    }
}

fn make_state(capacity: usize, consensus_address: Option<&str>, explicit: bool) -> TestState {
    registered_state(&mut Registry::default(), capacity, consensus_address, explicit)
}

fn registered_state(
    registry: &mut Registry,
    capacity: usize,
    consensus_address: Option<&str>,
    explicit: bool,
) -> TestState {
    let config = DiscoveryConfig {
        enabled: false,
        persistent_peers_only: false,
        bootstrap_protocol: BootstrapProtocol::Full,
        num_outbound_peers: capacity,
        num_inbound_peers: capacity,
        max_connections_per_peer: 5,
        ephemeral_connection_timeout: 5_000,
    };
    State::new(
        Discovery::new(config, vec![]),
        vec![],
        local_node(consensus_address),
        Metrics::new(registry),
        explicit,
        true,
        scores(),
    )
}

fn test_state() -> TestState {
    make_state(20, None, false)
}

fn test_state_with_local_addr(consensus_address: Option<&str>) -> TestState {
    make_state(20, consensus_address, false)
}

fn test_state_with_inbound_capacity(capacity: usize) -> TestState {
    make_state(capacity, None, false)
}

fn test_peer_info() -> PeerInfo {
    PeerInfo {
        moniker: "peer".to_string(),
        address: addr("/ip4/10.0.0.1/tcp/26656"),
        consensus_address: None,
        consensus_public_key: None,
        peer_type: PeerType::new(false, false),
        connection_direction: None,
        score: full_node_score(),
        topics: Vec::new(),
        is_explicit: false,
    }
}

/// Add a peer to the state and to the metrics.
fn insert_peer(state: &mut TestState, peer_id: PeerId, info: PeerInfo) {
    state.metrics.record_new_peer(&peer_id, &info);
    state.peer_info.insert(peer_id, info);
}

/// A peer that is connected, but neither outbound nor inbound.
fn add_ephemeral_peer(state: &mut TestState, peer_id: PeerId, info: PeerInfo) {
    let conn_id = peer_id.data.0[33] as u64;
    state.discovery.active_connections.insert(peer_id, vec![conn_id]);
    insert_peer(state, peer_id, info);
}

#[test]
fn remove_learned_persistent_peer_id_drops_address_learned_identity() {
    let mut state = test_state();
    let peer_id = peer(1);
    state
        .persistent_peer_addrs
        .push(addr("/ip4/127.0.0.1/tcp/26656"));
    state.persistent_peer_ids.insert(peer_id, ());

    state.remove_learned_persistent_peer_id(&peer_id);

    assert!(!state.persistent_peer_ids.contains_key(&peer_id));
}

#[test]
fn remove_learned_persistent_peer_id_keeps_configured_identity() {
    let mut state = test_state();
    let peer_id = peer(2);
    state
        .persistent_peer_addrs
        .push(addr(&format!("/p2p/{}", peer_id_to_text(&peer_id))));
    state.persistent_peer_ids.insert(peer_id, ());

    state.remove_learned_persistent_peer_id(&peer_id);

    assert!(state.persistent_peer_ids.contains_key(&peer_id));
}

#[test]
fn record_proof_peer_becomes_validator() {
    let mut state = test_state();
    let peer_id = peer(3);
    let public_key = vec![1, 2, 3];

    // Add peer and register in validator set
    insert_peer(&mut state, peer_id, test_peer_info());
    state.validator_set.push(ValidatorInfo {
        address: "val_addr_1".to_string(),
        public_key: public_key.clone(),
        voting_power: 100,
    });

    let result = state.record_verified_proof(&peer_id, public_key.clone());

    assert!(result.is_some());
    assert_eq!(result.unwrap(), validator_score());

    let info = state.peer_info.get(&peer_id).unwrap();
    assert!(info.peer_type.is_validator());
    assert_eq!(info.consensus_address.as_deref(), Some("val_addr_1"));
    assert_eq!(info.consensus_public_key.as_deref(), Some(&public_key[..]));
}

#[test]
fn record_proof_peer_not_in_validator_set() {
    let mut state = test_state();
    let peer_id = peer(4);
    let public_key = vec![4, 5, 6];

    insert_peer(&mut state, peer_id, test_peer_info());
    // No matching validator in set

    let result = state.record_verified_proof(&peer_id, public_key.clone());

    // Peer type and score are unchanged (still a full node), so gossipsub
    // does not need a new score pushed.
    assert!(result.is_none());

    let info = state.peer_info.get(&peer_id).unwrap();
    assert!(!info.peer_type.is_validator());
    assert!(info.consensus_address.is_none());
    // But the public key IS stored for future reclassification
    assert_eq!(info.consensus_public_key.as_deref(), Some(&public_key[..]));
}

#[test]
fn record_proof_buffers_when_peer_unknown() {
    let mut state = test_state();
    let peer_id = peer(5);
    let public_key = vec![7, 8, 9];

    // Don't insert peer into peer_info
    let result = state.record_verified_proof(&peer_id, public_key.clone());

    assert!(result.is_none());
    assert_eq!(
        state.pending_verified_proofs.get(&peer_id),
        Some(&public_key)
    );
}

#[test]
fn reclassify_promotes_to_validator() {
    let mut state = test_state();
    let peer_id = peer(6);
    let public_key = vec![10, 11, 12];

    // Peer already has a proof stored but was not in validator set
    let mut info = test_peer_info();
    info.consensus_public_key = Some(public_key.clone());
    insert_peer(&mut state, peer_id, info);

    // Now add them to the validator set
    let mut validators = Vec::new();
    validators.push(ValidatorInfo {
        address: "promoted_addr".to_string(),
        public_key: public_key.clone(),
        voting_power: 50,
    });

    let changed = state.process_validator_set_update(validators);

    assert_eq!(changed.len(), 1);
    assert_eq!(changed[0].0, peer_id);
    assert_eq!(changed[0].1, validator_score());

    let info = state.peer_info.get(&peer_id).unwrap();
    assert!(info.peer_type.is_validator());
    assert_eq!(info.consensus_address.as_deref(), Some("promoted_addr"));
}

#[test]
fn reclassify_demotes_from_validator() {
    let mut state = test_state();
    let peer_id = peer(7);
    let public_key = vec![13, 14, 15];

    // Peer is currently a validator
    let mut info = test_peer_info();
    info.peer_type = PeerType::new(false, true);
    info.consensus_public_key = Some(public_key.clone());
    info.consensus_address = Some("old_addr".to_string());
    info.score = validator_score();
    insert_peer(&mut state, peer_id, info);

    // Empty validator set → peer should be demoted
    let changed = state.process_validator_set_update(Vec::new());

    assert_eq!(changed.len(), 1);
    assert_eq!(changed[0].0, peer_id);
    assert_eq!(changed[0].1, full_node_score());

    let info = state.peer_info.get(&peer_id).unwrap();
    assert!(!info.peer_type.is_validator());
    assert!(info.consensus_address.is_none());
    // Public key is preserved for future reclassification
    assert!(info.consensus_public_key.is_some());
}

#[test]
fn reclassify_peer_without_proof_unaffected() {
    let mut state = test_state();
    let peer_id = peer(8);

    // Peer without consensus_public_key
    insert_peer(&mut state, peer_id, test_peer_info());

    let changed = state.process_validator_set_update(Vec::new());

    // No changes since peer has no proof to match
    assert!(changed.is_empty());
    assert!(!state.peer_info.get(&peer_id).unwrap().peer_type.is_validator());
}

#[test]
fn reclassify_reports_every_peer_even_beyond_metric_slot_cap() {
    let mut state = test_state();
    let peer_count = MAX_PEER_SLOTS + 20;
    let mut peers = Vec::with_capacity(peer_count);

    // Register more peers than the metric cap so the excess have no slot;
    // `record_new_peer` silently skips them while `peer_info` still tracks them.
    for i in 0..peer_count {
        let peer_id = peer(1_000 + i as u16);
        let public_key = vec![(i >> 8) as u8, i as u8];
        let mut info = test_peer_info();
        info.consensus_public_key = Some(public_key.clone());
        insert_peer(&mut state, peer_id, info);
        peers.push((peer_id, public_key));
    }

    // Promote every peer to a validator in one validator-set update.
    let mut validators = Vec::new();
    for (i, (_peer_id, public_key)) in peers.iter().enumerate() {
        validators.push(ValidatorInfo {
            address: format!("val_addr_{i}"),
            public_key: public_key.clone(),
            voting_power: 10,
        });
    }

    let changed = state.process_validator_set_update(validators);

    // Every promoted peer must be reported so its score reaches gossipsub,
    // including those whose metric slot was never allocated.
    assert_eq!(changed.len(), peer_count);
    for (peer_id, new_score) in &changed {
        assert_eq!(*new_score, validator_score());
        assert_eq!(state.peer_info.get(peer_id).unwrap().score, validator_score());
    }
}

#[test]
fn reclassify_local_node_becomes_validator() {
    let mut state = test_state_with_local_addr(Some("my_consensus_addr"));
    assert!(!state.local_node.is_validator);

    let mut validators = Vec::new();
    validators.push(ValidatorInfo {
        address: "my_consensus_addr".to_string(),
        public_key: vec![99],
        voting_power: 100,
    });

    let _ = state.process_validator_set_update(validators);

    assert!(state.local_node.is_validator);
}

#[test]
fn reclassify_local_node_loses_validator() {
    let mut state = test_state_with_local_addr(Some("my_consensus_addr"));
    state.local_node.is_validator = true;

    // Empty validator set
    let _ = state.process_validator_set_update(Vec::new());

    assert!(!state.local_node.is_validator);
}

#[test]
fn pending_proof_applied_when_identify_completes() {
    let mut state = test_state();
    let peer_id = peer(9);
    let public_key = vec![1, 2, 3];

    state.validator_set.push(ValidatorInfo {
        address: "buffered_val".to_string(),
        public_key: public_key.clone(),
        voting_power: 100,
    });

    // Proof arrives before Identify, it is buffered as there is no PeerInfo yet
    let result = state.record_verified_proof(&peer_id, public_key.clone());
    assert!(result.is_none());
    assert!(state.pending_verified_proofs.contains_key(&peer_id));

    // Simulate Identify completed, update_peer creates PeerInfo and applies pending proof
    let listen_addrs = vec![addr("/ip4/10.0.0.1/tcp/26656")];
    let conn_id = 42;
    let score = state.update_peer(peer_id, conn_id, &listen_addrs, "test-peer".to_string());

    assert!(state.pending_verified_proofs.is_empty());
    let peer = state.peer_info.get(&peer_id).unwrap();
    assert!(peer.peer_type.is_validator());
    assert_eq!(peer.consensus_public_key.as_deref(), Some(&public_key[..]));
    assert_eq!(peer.consensus_address.as_deref(), Some("buffered_val"));
    assert_eq!(score, validator_score());
}

#[test]
fn record_proof_persistent_peer_becomes_validator() {
    let mut state = test_state();
    let peer_id = peer(10);
    let public_key = vec![20, 21, 22];

    // Peer is persistent
    let mut info = test_peer_info();
    info.peer_type = PeerType::new(true, false);
    insert_peer(&mut state, peer_id, info);

    state.validator_set.push(ValidatorInfo {
        address: "persistent_val".to_string(),
        public_key: public_key.clone(),
        voting_power: 100,
    });

    let result = state.record_verified_proof(&peer_id, public_key);

    assert!(result.is_some());
    assert_eq!(result.unwrap(), validator_score());

    let info = state.peer_info.get(&peer_id).unwrap();
    assert!(info.peer_type.is_persistent());
    assert!(info.peer_type.is_validator());
    assert_eq!(info.consensus_address.as_deref(), Some("persistent_val"));
}

#[test]
fn sync_channel_cleaned_up_on_inbound_failure() {
    let mut state = test_state();
    let request_id = 1u64;
    let channel = "channel";

    // Simulate Message::Request inserting the channel
    state.sync_channels.insert(request_id, channel);
    assert_eq!(state.sync_channels.len(), 1);

    // Simulate InboundFailure cleanup
    let removed = state.sync_channels.remove(&request_id);
    assert!(removed.is_some());
    assert!(state.sync_channels.is_empty());
}

#[test]
fn late_sync_reply_after_inbound_failure_is_harmless() {
    let mut state = test_state();
    let request_id = 2u64;
    let channel = "channel";

    state.sync_channels.insert(request_id, channel);

    // InboundFailure cleans up first
    state.sync_channels.remove(&request_id);

    // A late SyncReply arrives — the entry is already gone
    let late_remove = state.sync_channels.remove(&request_id);
    assert!(late_remove.is_none());
}

#[test]
fn sync_reply_before_inbound_failure_is_harmless() {
    let mut state = test_state();
    let request_id = 3u64;
    let channel = "channel";

    state.sync_channels.insert(request_id, channel);

    // SyncReply arrives first and consumes the channel
    let reply_remove = state.sync_channels.remove(&request_id);
    assert!(reply_remove.is_some());

    // InboundFailure arrives late — the entry is already gone
    let failure_remove = state.sync_channels.remove(&request_id);
    assert!(failure_remove.is_none());
}

#[test]
fn prioritize_validator_promoted_when_capacity_available() {
    let mut state = test_state_with_inbound_capacity(2);
    let peer_id = peer(11);

    let mut info = test_peer_info();
    info.peer_type = PeerType::new(false, true);
    info.score = validator_score();
    add_ephemeral_peer(&mut state, peer_id, info);

    assert!(state.discovery.is_ephemeral_peer(&peer_id));

    let (evicted, _) = state.try_prioritize_peer(peer_id);

    assert!(evicted.is_none());
    assert!(state.discovery.is_inbound_peer(&peer_id));
    assert!(!state.discovery.is_ephemeral_peer(&peer_id));
}

#[test]
fn prioritize_validator_evicts_full_node_when_full() {
    let mut state = test_state_with_inbound_capacity(1);

    // Fill inbound with a full node
    let full_node_id = peer(12);
    let full_node_info = test_peer_info();
    add_ephemeral_peer(&mut state, full_node_id, full_node_info);
    state.discovery.inbound_peers.insert(full_node_id, ());

    assert!(!state.discovery.has_inbound_capacity());

    // Add validator as ephemeral
    let validator_id = peer(13);
    let mut validator_info = test_peer_info();
    validator_info.peer_type = PeerType::new(false, true);
    validator_info.score = validator_score();
    add_ephemeral_peer(&mut state, validator_id, validator_info);

    let (evicted, _) = state.try_prioritize_peer(validator_id);

    assert_eq!(evicted, Some(full_node_id));
    assert!(state.discovery.is_inbound_peer(&validator_id));
}

#[test]
fn prioritize_no_eviction_when_all_inbound_are_validators() {
    let mut state = test_state_with_inbound_capacity(1);

    // Fill inbound with a validator
    let existing_validator_id = peer(14);
    let mut existing_info = test_peer_info();
    existing_info.peer_type = PeerType::new(false, true);
    existing_info.score = validator_score();
    add_ephemeral_peer(&mut state, existing_validator_id, existing_info);
    state.discovery.inbound_peers.insert(existing_validator_id, ());

    // Add another validator as ephemeral
    let new_validator_id = peer(15);
    let mut new_info = test_peer_info();
    new_info.peer_type = PeerType::new(false, true);
    new_info.score = validator_score();
    add_ephemeral_peer(&mut state, new_validator_id, new_info);

    let (evicted, _) = state.try_prioritize_peer(new_validator_id);

    // No eviction candidate — all inbound are validators
    assert!(evicted.is_none());
    assert!(!state.discovery.is_inbound_peer(&new_validator_id));
    assert!(state.discovery.is_ephemeral_peer(&new_validator_id));
}

#[test]
fn prioritize_full_node_not_promoted() {
    let mut state = test_state_with_inbound_capacity(2);
    let peer_id = peer(16);

    let info = test_peer_info(); // full node
    add_ephemeral_peer(&mut state, peer_id, info);

    let (evicted, _) = state.try_prioritize_peer(peer_id);

    assert!(evicted.is_none());
    assert!(state.discovery.is_ephemeral_peer(&peer_id));
    assert!(!state.discovery.is_inbound_peer(&peer_id));
}

#[test]
fn prioritize_persistent_peer_promoted() {
    // Persistent peers can become ephemeral when both sides of a pair have
    // full inbound slots — each outbound dial arrives as inbound on the
    // remote and is classified as ephemeral.
    let mut state = test_state_with_inbound_capacity(2);
    let peer_id = peer(17);

    let mut info = test_peer_info();
    info.peer_type = PeerType::new(true, false); // persistent, not validator
    add_ephemeral_peer(&mut state, peer_id, info);

    let (evicted, _) = state.try_prioritize_peer(peer_id);

    assert!(evicted.is_none());
    assert!(state.discovery.is_inbound_peer(&peer_id));
}

#[test]
fn prioritize_evicts_lowest_score_peer() {
    let mut state = test_state_with_inbound_capacity(2);

    // Fill inbound with two full nodes of different scores
    let low_score_id = peer(18);
    let mut low_info = test_peer_info();
    low_info.score = score(1.0);
    add_ephemeral_peer(&mut state, low_score_id, low_info);
    state.discovery.inbound_peers.insert(low_score_id, ());

    let high_score_id = peer(19);
    let mut high_info = test_peer_info();
    high_info.score = score(100.0);
    add_ephemeral_peer(&mut state, high_score_id, high_info);
    state.discovery.inbound_peers.insert(high_score_id, ());

    assert!(!state.discovery.has_inbound_capacity());

    // Add validator as ephemeral
    let validator_id = peer(20);
    let mut validator_info = test_peer_info();
    validator_info.peer_type = PeerType::new(false, true);
    validator_info.score = validator_score();
    add_ephemeral_peer(&mut state, validator_id, validator_info);

    let (evicted, _) = state.try_prioritize_peer(validator_id);

    // Should evict the low-score full node
    assert_eq!(evicted, Some(low_score_id));
    assert!(state.discovery.is_inbound_peer(&validator_id));
}

#[test]
fn prioritize_updates_connection_direction() {
    let mut state = test_state_with_inbound_capacity(2);
    let peer_id = peer(21);

    let mut info = test_peer_info();
    info.peer_type = PeerType::new(false, true);
    info.connection_direction = None;
    add_ephemeral_peer(&mut state, peer_id, info);

    let _ = state.try_prioritize_peer(peer_id);

    let peer = state.peer_info.get(&peer_id).unwrap();
    assert_eq!(
        peer.connection_direction,
        Some(ConnectionDirection::Inbound)
    );
}

fn with_peer_id(text: &str, peer_id: &PeerId) -> Multiaddr {
    addr(&format!("{text}/p2p/{}", peer_id_to_text(peer_id)))
}

#[test]
fn persistent_peer_is_added_once() {
    let mut state = make_state(2, None, true);
    let peer_id = peer(500);
    add_ephemeral_peer(&mut state, peer_id, test_peer_info());
    let address = with_peer_id("/ip4/10.0.0.1/tcp/26656", &peer_id);

    let (result, actions) = state.add_persistent_peer(address.copy());
    assert!(result.is_ok());
    assert!(matches!(&actions[0], Action::SetScore(p, s) if *p == peer_id && *s == score(50.0)));
    assert!(matches!(&actions[1], Action::Discovery(_)));
    assert!(matches!(&actions[2], Action::AddExplicitPeer(p) if *p == peer_id));
    assert!(matches!(&actions[3], Action::Dial(a) if a.same(&address)));
    assert_eq!(actions.len(), 4);
    let info = state.peer_info.get(&peer_id).unwrap();
    assert!(info.peer_type.is_persistent() && info.is_explicit);
    assert!(state.discovery.is_inbound_peer(&peer_id));
    assert!(state.discovery.is_persistent_peer(&peer_id));

    let (again, none) = state.add_persistent_peer(address);
    assert!(matches!(again, Err(PersistentPeerError::AlreadyExists)));
    assert!(none.is_empty());
}

#[test]
fn peer_only_address_is_not_dialed() {
    let mut state = test_state();
    let peer_id = peer(501);
    let address = addr(&format!("/p2p/{}", peer_id_to_text(&peer_id)));
    let (result, actions) = state.add_persistent_peer(address);
    assert!(result.is_ok());
    assert!(actions.is_empty());
    assert!(state.persistent_peer_ids.contains_key(&peer_id));
}

#[test]
fn persistent_peer_is_removed_once() {
    let mut state = make_state(2, None, true);
    let peer_id = peer(502);
    let address = with_peer_id("/ip4/10.0.0.1/tcp/26656", &peer_id);
    let mut info = test_peer_info();
    info.peer_type = PeerType::new(false, true);
    insert_peer(&mut state, peer_id, info);
    let _ = state.add_persistent_peer(address.copy());

    let (result, actions) = state.remove_persistent_peer(address.copy());
    assert!(result.is_ok());
    assert!(matches!(&actions[0], Action::RemoveExplicitPeer(p) if *p == peer_id));
    assert!(matches!(&actions[1], Action::SetScore(p, s) if *p == peer_id && *s == score(100.0)));
    assert!(matches!(&actions[2], Action::DisconnectIfConnected(p) if *p == peer_id));
    assert_eq!(actions.len(), 5);
    let info = state.peer_info.get(&peer_id).unwrap();
    assert!(!info.peer_type.is_persistent() && info.peer_type.is_validator() && !info.is_explicit);
    assert!(state.persistent_peer_addrs.is_empty());
    assert!(!state.persistent_peer_ids.contains_key(&peer_id));
    assert!(state.discovery.bootstrap_nodes.is_empty());

    let (again, none) = state.remove_persistent_peer(address);
    assert!(matches!(again, Err(PersistentPeerError::NotFound)));
    assert!(none.is_empty());
}

#[test]
fn inbound_peer_stays_connected_when_no_longer_persistent() {
    let mut state = make_state(2, None, false);
    let peer_id = peer(503);
    let address = with_peer_id("/ip4/10.0.0.1/tcp/26656", &peer_id);
    let _ = state.add_persistent_peer(address.copy());
    state.discovery.inbound_peers.insert(peer_id, ());
    let (_, actions) = state.remove_persistent_peer(address.copy());
    assert!(!actions.iter().any(|a| matches!(a, Action::DisconnectIfConnected(_))));

    let _ = state.add_persistent_peer(address.copy());
    state.local_node.persistent_peers_only = true;
    let (_, actions) = state.remove_persistent_peer(address);
    assert!(actions.iter().any(|a| matches!(a, Action::DisconnectIfConnected(_))));
}

#[test]
fn peer_is_persistent_by_where_it_is_connected_from() {
    let mut state = test_state();
    let peer_id = peer(504);
    let _ = state.add_persistent_peer(addr("/ip4/10.0.0.9/tcp/26656"));
    state.discovery.connections.insert(
        7,
        ConnectionInfo {
            direction: ConnectionDirection::Outbound,
            remote_addr: with_peer_id("/ip4/10.0.0.9/tcp/26656", &peer_id),
        },
    );
    assert!(state.is_persistent_peer(&peer_id, 7));
    assert!(!state.is_persistent_peer(&peer_id, 8));

    // What a peer says of its addresses does not make it persistent.
    let other = peer(505);
    let claimed = vec![addr("/ip4/10.0.0.9/tcp/26656")];
    assert_eq!(state.update_peer(other, 8, &claimed, "m".to_string()), full_node_score());
    assert_eq!(state.update_peer(peer_id, 7, &claimed, "m".to_string()), score(50.0));
    assert!(state.persistent_peer_ids.contains_key(&peer_id));
}

#[test]
fn outbound_address_is_kept_when_a_peer_connects_again() {
    let mut state = test_state();
    let peer_id = peer(506);
    let mut info = test_peer_info();
    info.connection_direction = Some(ConnectionDirection::Outbound);
    insert_peer(&mut state, peer_id, info);
    state.discovery.inbound_peers.insert(peer_id, ());
    let listen = vec![addr("/ip4/10.9.9.9/tcp/1")];
    let _ = state.update_peer(peer_id, 3, &listen, "renamed".to_string());
    let kept = state.peer_info.get(&peer_id).unwrap();
    assert!(kept.address.same(&addr("/ip4/10.0.0.1/tcp/26656")));
    assert_eq!(kept.connection_direction, Some(ConnectionDirection::Outbound));
    assert_eq!(kept.moniker, "renamed");
}

#[test]
fn peer_without_address_gets_the_unspecified_one() {
    let mut state = test_state();
    let peer_id = peer(507);
    let _ = state.update_peer(peer_id, 3, &vec![], "m".to_string());
    let info = state.peer_info.get(&peer_id).unwrap();
    assert!(info.address.same(&addr("/ip4/0.0.0.0/tcp/0")));
}

#[test]
fn scores_and_meshes_are_taken_over() {
    let mut state = test_state();
    let (a, b) = (peer(508), peer(509));
    insert_peer(&mut state, a, test_peer_info());
    insert_peer(&mut state, b, test_peer_info());
    let mut known = OrdMap::new();
    known.insert(a, score(3.5));
    let meshes = vec![
        Mesh { topic: "/consensus".to_string(), members: vec![a, b] },
        Mesh { topic: "/liveness".to_string(), members: vec![a] },
        Mesh { topic: "/consensus".to_string(), members: vec![a] },
    ];
    state.update_peer_info(&known, &meshes);
    let info = state.peer_info.get(&a).unwrap();
    assert_eq!(info.score, score(3.5));
    assert_eq!(info.topics, vec!["/consensus".to_string(), "/liveness".to_string()]);
    let info = state.peer_info.get(&b).unwrap();
    assert_eq!(info.score, full_node_score());
    assert_eq!(info.topics, vec!["/consensus".to_string()]);
}

#[test]
fn peers_are_described_by_ascending_moniker() {
    let mut state = test_state_with_local_addr(Some("me-addr"));
    state.local_node.subscribed_topics = vec!["/z".to_string(), "/a".to_string()];
    let (first, second) = (peer(510), peer(511));
    let mut late = test_peer_info();
    late.moniker = "zoe".to_string();
    late.topics = vec!["/liveness".to_string(), "/consensus".to_string()];
    late.connection_direction = Some(ConnectionDirection::Inbound);
    late.is_explicit = true;
    late.score = score(-2.5);
    let mut early = test_peer_info();
    early.moniker = "ann".to_string();
    early.peer_type = PeerType::new(true, true);
    early.consensus_address = Some("val".to_string());
    insert_peer(&mut state, first, late);
    insert_peer(&mut state, second, early);

    let me = peer_id_to_text(&peer(0));
    let (zoe, ann) = (peer_id_to_text(&first), peer_id_to_text(&second));
    assert_eq!(
        state.format_peer_info(),
        format!(
            "Address, Moniker, Type, PeerId, ConsensusAddr, Mesh, Dir, Score\n\
             /ip4/127.0.0.1/tcp/26656, test-node, full_node, {me}, me-addr, [/a,/z], open, me\n\
             /ip4/10.0.0.1/tcp/26656, ann, validator, {ann}, val, [], ??, 10, -\n\
             /ip4/10.0.0.1/tcp/26656, zoe, full_node, {zoe}, none, [/consensus,/liveness], inbound, -2, explicit"
        )
    );
}

#[test]
fn dump_lists_validators_and_persistent_peers_in_order() {
    let mut state = test_state();
    let mut validators = Vec::new();
    for (address, key) in [("b", 2u8), ("a", 1u8), ("c", 3u8), ("a", 1u8)] {
        validators.push(ValidatorInfo {
            address: address.to_string(),
            public_key: vec![key],
            voting_power: 1,
        });
    }
    let _ = state.process_validator_set_update(validators);
    let mut identity = vec![0x00, 0x24];
    identity.extend_from_slice(&[9; 36]);
    let identity = ShortBytes::from_slice(&identity).unwrap();
    for p in [peer(2), identity, peer(1)] {
        state.persistent_peer_ids.insert(p, ());
    }
    insert_peer(&mut state, peer(3), test_peer_info());

    let dump = state.dump();
    let addresses: Vec<&str> = dump.validator_set.iter().map(|v| v.address.as_str()).collect();
    assert_eq!(addresses, vec!["a", "b", "c"]);
    assert_eq!(dump.persistent_peer_ids, vec![identity, peer(1), peer(2)]);
    assert_eq!(dump.peers.len(), 1);
    assert_eq!(dump.local_node.moniker, "test-node");
}

#[test]
fn peer_that_left_is_forgotten() {
    let mut state = make_state(2, None, true);
    let peer_id = peer(512);
    let mut info = test_peer_info();
    info.peer_type = PeerType::new(true, false);
    insert_peer(&mut state, peer_id, info);
    state.persistent_peer_ids.insert(peer_id, ());
    let made = state.add_explicit_peer_to_gossipsub(peer_id);
    assert_eq!(made.len(), 1);

    let actions = state.remove_peer(&peer_id);
    assert!(matches!(&actions[..], [Action::RemoveExplicitPeer(p)] if *p == peer_id));
    assert!(state.peer_info.is_empty());
    assert!(state.persistent_peer_ids.is_empty());
}

#[test]
fn peer_id_text_is_base58() {
    // The identifier with a digest of zeros.
    let mut bytes = vec![0x12, 0x20];
    bytes.extend_from_slice(&[0; 32]);
    let id = ShortBytes::from_slice(&bytes).unwrap();
    assert_eq!(peer_id_to_text(&id), "QmNLei78zWmzUdbeRB3CiUfAizWUrbeeZh5K1rhAQKCh51");
    assert_eq!(peer_id_to_text(&ShortBytes::from_slice(&[1, 2]).unwrap()), "");
}

/// The series of discovered peers.
fn discovered_series(registry: &Registry) -> Vec<String> {
    let mut text = String::new();
    encode(&mut text, registry).unwrap();
    text.lines().filter(|line| line.starts_with("discovered_peers{")).map(String::from).collect()
}

#[test]
fn series_follows_the_persistent_role() {
    let mut registry = Registry::default();
    let mut state = registered_state(&mut registry, 2, None, false);
    let peer_id = peer(510);
    let address = with_peer_id("/ip4/10.0.0.1/tcp/26656", &peer_id);
    add_ephemeral_peer(&mut state, peer_id, test_peer_info());
    let before = discovered_series(&registry);
    assert_eq!(before.len(), 1);
    assert!(before[0].ends_with(" 10"));

    let _ = state.add_persistent_peer(address.copy());
    let persistent = discovered_series(&registry);
    assert_eq!(persistent.len(), 1);
    assert!(persistent[0].ends_with(" 50"));
    assert_ne!(persistent, before);

    let _ = state.remove_persistent_peer(address.copy());
    assert_eq!(discovered_series(&registry), before);

    let _ = state.add_persistent_peer(address);
    let _ = state.remove_peer(&peer_id);
    assert!(discovered_series(&registry).is_empty());
}
