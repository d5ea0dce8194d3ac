use malachitebft::bytes::ShortBytes;
use malachitebft::engine::event::PeerId;
use malachitebft::network::metrics::{Metrics, Slots, MAX_PEER_SLOTS};
use malachitebft::network::multiaddr::Multiaddr;
use malachitebft::network::peer::{peer_id_to_text, LocalNodeInfo, PeerInfo, PeerType, Score};
use prometheus_client::encoding::text::encode;
use prometheus_client::registry::Registry;

const FULL_NODE_SCORE: Score = Score { order: 10, whole: 10 };

fn peer(n: u16) -> PeerId {
    let mut bytes = vec![0x12, 0x20];
    bytes.extend_from_slice(&[7; 30]);
    bytes.extend_from_slice(&n.to_be_bytes());
    ShortBytes::from_slice(&bytes).unwrap()
}

/// The address is not part of the labels: a peer that comes back from another
/// port is the same series.
fn peer_info(moniker: &str, address: &str) -> PeerInfo {
    PeerInfo {
        moniker: moniker.to_string(),
        address: Multiaddr::parse(address).unwrap(),
        consensus_address: None,
        consensus_public_key: None,
        peer_type: PeerType::new(false, false),
        connection_direction: None,
        score: FULL_NODE_SCORE,
        topics: Vec::new(),
        is_explicit: false,
    }
}

fn encoded(registry: &Registry) -> String {
    let mut buf = String::new();
    encode(&mut buf, registry).unwrap();
    buf
}

/// Every line `<metric_name>{...}` is a series of its own.
fn metric_series_count(registry: &Registry, metric_name: &str) -> usize {
    let prefix = format!("{metric_name}{{");
    encoded(registry).lines().filter(|line| line.starts_with(&prefix)).count()
}

fn discovered_peers_series_count(registry: &Registry) -> usize {
    metric_series_count(registry, "discovered_peers")
}

#[test]
fn discovered_peers_bounded_under_ephemeral_port_churn() {
    let mut registry = Registry::default();
    let mut metrics = Metrics::new(&mut registry);
    let peer_id = peer(1);

    for port in 0..500u16 {
        let addr = format!("/ip4/10.0.0.1/tcp/{port}");
        let info = peer_info("peer-a", &addr);
        metrics.record_new_peer(&peer_id, &info);
        metrics.free_slot(&peer_id, &info);
    }

    // After all peers have disconnected, no series should remain.
    assert_eq!(
        discovered_peers_series_count(&registry),
        0,
        "disconnect must prune the discovered_peers entry"
    );
}

#[test]
fn discovered_peers_single_series_per_connected_peer() {
    let mut registry = Registry::default();
    let mut metrics = Metrics::new(&mut registry);
    let peer_id = peer(1);

    for port in 0..100u16 {
        let addr = format!("/ip4/10.0.0.1/tcp/{port}");
        let info = peer_info("peer-a", &addr);
        let previous = peer_info(
            "peer-a",
            &format!("/ip4/10.0.0.1/tcp/{}", port.wrapping_sub(1)),
        );
        metrics.record_new_peer(&peer_id, &info);
        metrics.update_peer_labels(&peer_id, &previous, &info);
    }

    let count = discovered_peers_series_count(&registry);
    assert_eq!(
        count, 1,
        "same peer reconnecting from different ephemeral ports must yield one series, got {count}"
    );
}

#[test]
fn discovered_peers_cardinality_tracks_connected_peers() {
    let mut registry = Registry::default();
    let mut metrics = Metrics::new(&mut registry);

    let peers: Vec<_> = (0..100u16)
        .map(|i| {
            let id = peer(i);
            let info = peer_info(&format!("peer-{i}"), &format!("/ip4/10.0.0.{i}/tcp/26656"));
            (id, info)
        })
        .collect();

    for (id, info) in &peers {
        metrics.record_new_peer(id, info);
    }
    assert_eq!(
        discovered_peers_series_count(&registry),
        peers.len(),
        "one series per connected peer while connected"
    );

    for (id, info) in &peers {
        metrics.free_slot(id, info);
    }
    assert_eq!(
        discovered_peers_series_count(&registry),
        0,
        "all series must be pruned once every peer disconnects"
    );
}

#[test]
fn peer_mesh_membership_pruned_on_leave() {
    let mut registry = Registry::default();
    let mut metrics = Metrics::new(&mut registry);
    let peer_id = peer(1);

    let mut info = peer_info("peer-a", "/ip4/10.0.0.1/tcp/26656");
    metrics.record_new_peer(&peer_id, &info);

    let consensus: Vec<String> = vec!["/consensus".to_string()];
    let none: Vec<String> = Vec::new();

    for _ in 0..200 {
        // Join /consensus
        metrics
            .update_peer_metrics(&peer_id, &info, info.score, Some(&consensus))
            .unwrap();
        info.topics = consensus.clone();

        // Leave /consensus: the entry must be removed, not zeroed
        metrics
            .update_peer_metrics(&peer_id, &info, info.score, Some(&none))
            .unwrap();
        info.topics = none.clone();
    }

    assert_eq!(
        metric_series_count(&registry, "peer_mesh_membership"),
        0,
        "leaving a topic mesh must prune the peer_mesh_membership entry"
    );
}

#[test]
fn peer_mesh_membership_pruned_on_disconnect() {
    let mut registry = Registry::default();
    let mut metrics = Metrics::new(&mut registry);
    let peer_id = peer(1);

    let topics: Vec<String> = ["/consensus", "/liveness", "/proposal_parts"]
        .iter()
        .map(|s| s.to_string())
        .collect();

    let mut info = peer_info("peer-a", "/ip4/10.0.0.1/tcp/26656");
    metrics.record_new_peer(&peer_id, &info);
    metrics
        .update_peer_metrics(&peer_id, &info, info.score, Some(&topics))
        .unwrap();
    info.topics = topics;

    assert_eq!(metric_series_count(&registry, "peer_mesh_membership"), 3);

    metrics.free_slot(&peer_id, &info);

    assert_eq!(
        metric_series_count(&registry, "peer_mesh_membership"),
        0,
        "disconnect must prune all mesh-membership entries for the peer"
    );
}

#[test]
fn explicit_peers_pruned_on_stale() {
    let mut registry = Registry::default();
    let mut metrics = Metrics::new(&mut registry);

    for i in 0..200 {
        let peer_id = peer(i);
        let moniker = format!("peer-{i}");
        metrics.record_explicit_peer(&peer_id, &moniker);
        assert_eq!(metric_series_count(&registry, "explicit_peers"), 1);
        metrics.mark_explicit_peer_stale(&peer_id, &moniker);
    }

    assert_eq!(
        metric_series_count(&registry, "explicit_peers"),
        0,
        "marking an explicit peer stale must prune the entry"
    );
}

#[test]
fn series_show_labels_and_values() {
    let mut registry = Registry::default();
    let mut metrics = Metrics::new(&mut registry);
    let peer_id = peer(1);
    let text = peer_id_to_text(&peer_id);
    let info = peer_info("peer-a", "/ip4/10.0.0.1/tcp/26656");
    metrics.record_new_peer(&peer_id, &info);
    let line = format!(
        "discovered_peers{{slot=\"0\",peer_moniker=\"peer-a\",peer_id=\"{text}\",peer_type=\"full_node\",consensus_address=\"none\"}} 10"
    );
    assert!(encoded(&registry).lines().any(|l| l == line), "{}", encoded(&registry));

    let mut promoted = info.copy();
    promoted.peer_type = PeerType::new(false, true);
    promoted.consensus_address = Some("val".to_string());
    promoted.score = Score { order: 100, whole: 100 };
    assert!(metrics.update_peer_labels(&peer_id, &info, &promoted));
    assert!(!metrics.update_peer_labels(&peer_id, &promoted, &promoted));
    let line = format!(
        "discovered_peers{{slot=\"0\",peer_moniker=\"peer-a\",peer_id=\"{text}\",peer_type=\"validator\",consensus_address=\"val\"}} 100"
    );
    assert!(encoded(&registry).lines().any(|l| l == line), "{}", encoded(&registry));
    assert_eq!(discovered_peers_series_count(&registry), 1);
}

#[test]
fn local_node_is_shown() {
    let mut registry = Registry::default();
    let mut metrics = Metrics::new(&mut registry);
    let mut info = LocalNodeInfo {
        moniker: "me".to_string(),
        peer_id: peer(1),
        listen_addr: Multiaddr::parse("/ip4/127.0.0.1/tcp/26656").unwrap(),
        consensus_address: Some("val".to_string()),
        proof_bytes: None,
        is_validator: false,
        persistent_peers_only: false,
        subscribed_topics: Vec::new(),
    };
    let text = peer_id_to_text(&info.peer_id);
    for (is_validator, value) in [(false, 0), (true, 1)] {
        info.is_validator = is_validator;
        metrics.set_local_node_info(&info);
        let line = format!(
            "local_node_info{{peer_id=\"{text}\",listen_addr=\"/ip4/127.0.0.1/tcp/26656\",consensus_address=\"val\"}} {value}"
        );
        assert!(encoded(&registry).lines().any(|l| l == line), "{}", encoded(&registry));
        assert_eq!(metric_series_count(&registry, "local_node_info"), 1);
    }
}

#[test]
fn slots_are_bounded_and_used_again() {
    let mut slots = Slots::new(2);
    assert_eq!(slots.assign(peer(1)), Some(0));
    assert_eq!(slots.assign(peer(2)), Some(1));
    assert_eq!(slots.assign(peer(1)), Some(0));
    assert_eq!(slots.assign(peer(3)), None);
    assert_eq!(slots.assigned(), 2);
    assert_eq!(slots.release(&peer(1)), Some(0));
    assert_eq!(slots.release(&peer(1)), None);
    assert_eq!(slots.assign(peer(3)), Some(0));
    assert_eq!(slots.get(&peer(2)), Some(1));
    assert_eq!(slots.get(&peer(1)), None);
}

#[test]
fn peers_beyond_the_bound_have_no_series() {
    let mut registry = Registry::default();
    let mut metrics = Metrics::new(&mut registry);
    let info = peer_info("p", "/ip4/10.0.0.1/tcp/1");
    for i in 0..MAX_PEER_SLOTS + 5 {
        metrics.record_new_peer(&peer(i as u16), &info);
    }
    assert_eq!(discovered_peers_series_count(&registry), MAX_PEER_SLOTS);
    assert!(metrics.update_peer_metrics(&peer(900), &info, info.score, None).is_err());
    assert!(!metrics.update_peer_labels(&peer(900), &info, &info));
}

#[test]
fn families_are_registered_under_their_names() {
    let mut registry = Registry::default();
    Metrics::new(&mut registry);
    let text = encoded(&registry);
    let lines: Vec<&str> = text.lines().filter(|line| line.starts_with("# HELP")).collect();
    assert_eq!(
        lines,
        vec![
            "# HELP local_node_info Information about the local node (gauge value: 1 = validator, 0 = not validator).",
            "# HELP discovered_peers Discovered/connected peers with basic info (gauge value = peer score).",
            "# HELP peer_mesh_membership Per-peer, per-topic gossipsub mesh membership (entry present with value 1 = in mesh; entry absent = not in mesh).",
            "# HELP explicit_peers Peers added as explicit peers in gossipsub (entry present with value 1 = active; entry absent = not explicit / disconnected).",
        ]
    );
}
