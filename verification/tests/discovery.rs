use malachitebft::bytes::ShortBytes;
use malachitebft::discovery::state::{
    Action, BootstrapProtocol, Config, ConnectionDirection, ConnectionInfo, DialInfo, Discovery,
    Handler, NetworkEvent, OutboundState, PeerIdentity, State,
};
use malachitebft::engine::event::PeerId;
use malachitebft::network::multiaddr::{Multiaddr, TransportProtocol};
use malachitebft::network::peer::peer_id_to_text;

fn peer(n: u8) -> PeerId {
    let mut bytes = vec![0x12, 0x20];
    bytes.extend_from_slice(&[n; 32]);
    ShortBytes::from_slice(&bytes).unwrap()
}

fn addr(text: &str) -> Multiaddr {
    Multiaddr::parse(text).unwrap()
}

fn config(enabled: bool) -> Config {
    Config {
        enabled,
        persistent_peers_only: false,
        bootstrap_protocol: BootstrapProtocol::Full,
        num_outbound_peers: 2,
        num_inbound_peers: 1,
        max_connections_per_peer: 2,
        ephemeral_connection_timeout: 5_000,
    }
}

fn identity(listen: &[&str]) -> PeerIdentity<u8> {
    PeerIdentity {
        listen_addrs: listen.iter().map(|a| addr(a)).collect(),
        signed_peer_record: Some(1),
    }
}

fn undialed() -> DialInfo {
    DialInfo { dialed_addrs: None, we_dialed: false }
}

#[test]
fn first_state_depends_on_the_configuration() {
    let node = || vec![addr("/ip4/10.0.0.1/tcp/1")];
    assert_eq!(Discovery::<u8>::new(config(false), node()).state, State::Idle);
    assert_eq!(Discovery::<u8>::new(config(true), node()).state, State::Extending(2));
    assert_eq!(Discovery::<u8>::new(config(true), vec![]).state, State::Idle);
    let mut kademlia = config(true);
    kademlia.bootstrap_protocol = BootstrapProtocol::Kademlia;
    assert_eq!(Discovery::<u8>::new(kademlia, node()).state, State::Bootstrapping);
    assert_eq!(ConnectionDirection::Outbound.as_str(), "outbound");
    assert_eq!(ConnectionDirection::Inbound.as_str(), "inbound");
}

#[test]
fn peers_are_inbound_while_there_is_room() {
    let mut d: Discovery<u8> = Discovery::new(config(false), vec![]);
    let (known, _) = d.handle_new_peer(1, peer(1), identity(&[]), undialed());
    assert!(!known);
    assert!(d.is_inbound_peer(&peer(1)));
    assert!(!d.has_inbound_capacity());

    let (refused, actions) = d.handle_new_peer(2, peer(2), identity(&[]), undialed());
    assert!(refused);
    assert!(actions.iter().any(|a| matches!(a, Action::QueueClose(p, 2, None) if *p == peer(2))));

    let dialed = DialInfo { dialed_addrs: None, we_dialed: true };
    let (known, _) = d.handle_new_peer(3, peer(3), identity(&[]), dialed);
    assert!(!known);
    assert!(d.is_outbound_peer(&peer(3)));
    assert_eq!(d.outbound_peers.get(&peer(3)), Some(&OutboundState::Confirmed));
}

#[test]
fn second_identification_of_a_connection_changes_nothing() {
    let mut d: Discovery<u8> = Discovery::new(config(false), vec![]);
    let _ = d.handle_new_peer(1, peer(1), identity(&[]), undialed());
    let (known, actions) = d.handle_new_peer(1, peer(1), identity(&["/ip4/1.1.1.1/tcp/1"]), undialed());
    assert!(known);
    assert!(actions.is_empty());
    assert!(d.discovered_peers.get(&peer(1)).unwrap().is_empty());
}

#[test]
fn connections_of_a_peer_are_bounded() {
    let mut d: Discovery<u8> = Discovery::new(config(false), vec![]);
    for connection in 1..=2 {
        let _ = d.handle_new_peer(connection, peer(1), identity(&[]), undialed());
    }
    let (known, actions) = d.handle_new_peer(3, peer(1), identity(&[]), undialed());
    assert!(known);
    assert!(actions.iter().any(|a| matches!(a, Action::QueueClose(_, 3, None))));
    assert_eq!(d.active_connections.get(&peer(1)), Some(&vec![1, 2]));
}

#[test]
fn others_are_refused_where_only_persistent_peers_are_accepted() {
    let mut only = config(false);
    only.persistent_peers_only = true;
    let named = addr(&format!("/ip4/10.0.0.1/tcp/1/p2p/{}", peer_id_to_text(&peer(1))));
    let mut d: Discovery<u8> = Discovery::new(only, vec![named]);
    let (refused, actions) = d.handle_new_peer(1, peer(2), identity(&[]), undialed());
    assert!(refused);
    assert!(matches!(&actions[..], [Action::QueueClose(_, 1, None)]));
    assert!(d.active_connections.is_empty());
    let (refused, _) = d.handle_new_peer(2, peer(1), identity(&[]), undialed());
    assert!(!refused);
}

#[test]
fn configured_peer_is_identified_by_where_it_connects_from() {
    let mut d: Discovery<u8> = Discovery::new(config(false), vec![addr("/ip4/10.0.0.1/tcp/1")]);
    d.connections.insert(
        7,
        ConnectionInfo {
            direction: ConnectionDirection::Inbound,
            remote_addr: addr("/ip4/10.0.0.2/tcp/1"),
        },
    );
    // What a peer says of itself does not count.
    let _ = d.handle_new_peer(7, peer(2), identity(&["/ip4/10.0.0.1/tcp/1"]), undialed());
    assert!(!d.is_persistent_peer(&peer(2)));
    d.connections.insert(
        8,
        ConnectionInfo {
            direction: ConnectionDirection::Outbound,
            remote_addr: addr("/ip4/10.0.0.1/tcp/1"),
        },
    );
    let _ = d.handle_new_peer(8, peer(1), identity(&[]), undialed());
    assert!(d.is_persistent_peer(&peer(1)));
    assert_eq!(d.get_peer_id_for_addr(&addr("/ip4/10.0.0.1/tcp/1")), Some(peer(1)));

    // It is forgotten, and can be identified anew, once its last connection is closed.
    let (_, closed) = d.handle_closed_connection(peer(1), 8, true);
    assert!(closed.forget_peer);
    let _ = d.cleanup_peer_on_disconnect(peer(1));
    assert!(!d.is_persistent_peer(&peer(1)));
}

#[test]
fn closing_identified_connection_keeps_peer_state_while_another_connection_remains() {
    let mut d: Discovery<u8> = Discovery::new(config(false), vec![]);
    let _ = d.handle_new_peer(1, peer(1), identity(&[]), undialed());
    let _ = d.handle_new_peer(2, peer(1), identity(&[]), undialed());
    let (actions, closed) = d.handle_closed_connection(peer(1), 1, false);
    assert!(matches!(&actions[..], [Action::RemoveDialInProgress(1)]));
    assert!(!closed.forget_peer);
    assert!(d.is_inbound_peer(&peer(1)));
    assert_eq!(d.active_connections.get(&peer(1)), Some(&vec![2]));
    assert!(d.discovered_peers.contains_key(&peer(1)));

    let (_, closed) = d.handle_closed_connection(peer(1), 2, true);
    assert!(closed.forget_peer);
    assert!(!d.is_inbound_peer(&peer(1)));
    assert!(d.active_connections.is_empty());
}

#[test]
fn inbound_peer_is_evicted_with_its_connections() {
    let mut d: Discovery<u8> = Discovery::new(config(false), vec![]);
    let _ = d.handle_new_peer(1, peer(1), identity(&[]), undialed());
    let actions = d.evict_inbound_peer(peer(1)).unwrap();
    assert!(matches!(
        &actions[..],
        [Action::QueueClose(_, 1, None), Action::UpdateMetrics]
    ));
    assert!(d.evict_inbound_peer(peer(1)).is_none());
    assert!(d.is_ephemeral_peer(&peer(1)));
    assert!(d.promote_to_inbound(peer(1)));
    assert!(!d.promote_to_inbound(peer(1)));
    assert!(!d.should_close(peer(1), 1));
    assert_eq!(d.inbound_peer_ids(), vec![peer(1)]);
    assert!(!d.is_enabled());
}

#[test]
fn bootstrap_nodes_are_added_once_and_removed() {
    let mut d: Discovery<u8> = Discovery::new(config(false), vec![]);
    d.add_bootstrap_node(addr("/ip4/10.0.0.1/tcp/1"));
    d.add_bootstrap_node(addr("/ip4/10.0.0.1/tcp/1"));
    assert_eq!(d.bootstrap_nodes.len(), 1);
    assert!(d.remove_bootstrap_node(&addr("/ip4/10.0.0.1/tcp/1")));
    assert!(!d.remove_bootstrap_node(&addr("/ip4/10.0.0.1/tcp/1")));
    let named = addr(&format!("/ip4/10.0.0.1/tcp/1/p2p/{}", peer_id_to_text(&peer(1))));
    let actions = Discovery::<u8>::cancel_dial_attempts(&named, Some(peer(1)));
    assert!(matches!(
        &actions[..],
        [Action::RemoveDialDoneAddress(a), Action::RemoveDialDonePeer(p)]
            if a.same(&addr("/ip4/10.0.0.1/tcp/1")) && *p == peer(1)
    ));
}

#[test]
fn end_of_bootstrap_counts_while_bootstrapping() {
    let mut kademlia = config(true);
    kademlia.bootstrap_protocol = BootstrapProtocol::Kademlia;
    let mut d: Discovery<u8> = Discovery::new(kademlia, vec![addr("/ip4/10.0.0.1/tcp/1")]);
    assert_eq!(
        d.on_network_event(NetworkEvent::BootstrapProgressed { last: true }),
        Handler::SuccessfulBootstrap
    );
    assert_eq!(
        d.on_network_event(NetworkEvent::BootstrapProgressed { last: false }),
        Handler::Ignore
    );
    assert_eq!(d.on_network_event(NetworkEvent::BootstrapFailed), Handler::FailedBootstrap);
    d.state = State::Idle;
    assert_eq!(
        d.on_network_event(NetworkEvent::BootstrapProgressed { last: true }),
        Handler::Ignore
    );
    assert_eq!(d.on_network_event(NetworkEvent::BootstrapFailed), Handler::Ignore);
    assert_eq!(
        d.on_network_event(NetworkEvent::ConnectResponse { accepted: true }),
        Handler::ConnectResponse { accepted: true }
    );
}

#[test]
fn addresses_are_read_and_written() {
    let text = format!("/ip4/10.0.0.1/tcp/26656/p2p/{}", peer_id_to_text(&peer(1)));
    let a = addr(&text);
    assert_eq!(a.to_text(), Some(text));
    assert_eq!(a.peer_id(), Some(peer(1)));
    assert!(a.strip_peer_id().same(&addr("/ip4/10.0.0.1/tcp/26656")));
    assert!(!a.same(&a.strip_peer_id()));
    assert!(Multiaddr::parse("not an address").is_none());
    assert_eq!(TransportProtocol::from_multiaddr(&a), Some(TransportProtocol::Tcp));
    assert_eq!(
        TransportProtocol::from_multiaddr(&addr("/ip4/10.0.0.1/udp/1/quic-v1")),
        Some(TransportProtocol::Quic)
    );
    assert_eq!(TransportProtocol::from_multiaddr(&addr("/ip4/10.0.0.1/udp/1")), None);
}

#[test]
fn connections_are_closed_once_discovery_is_done() {
    let idle: Discovery<u8> = Discovery::new(config(false), vec![]);
    assert!(idle.can_close(true));
    assert!(!idle.can_close(false));
    let busy: Discovery<u8> = Discovery::new(config(true), vec![addr("/ip4/10.0.0.1/tcp/1")]);
    assert!(!busy.can_close(true));
}

/// An unknown peer is connected from an address of its own and says that it
/// listens on the address of a configured peer.
#[test]
fn kademlia_routing_table_rejects_foreign_self_reported_address() {
    let victim = "/ip4/198.51.100.7/tcp/26656";
    let mut kademlia = config(true);
    kademlia.bootstrap_protocol = BootstrapProtocol::Kademlia;
    let mut d: Discovery<u8> = Discovery::new(kademlia, vec![addr(victim)]);
    let remote_addr = addr("/ip4/203.0.113.9/tcp/41337");
    d.connections
        .insert(1, ConnectionInfo { direction: ConnectionDirection::Inbound, remote_addr });
    let (_, actions) = d.handle_new_peer(1, peer(1), identity(&[victim]), undialed());
    assert!(!actions.iter().any(|a| matches!(a, Action::AddRoutingAddress(_, _))));
}

#[test]
fn routing_table_takes_addresses_that_a_peer_is_at() {
    let mut kademlia = config(true);
    kademlia.bootstrap_protocol = BootstrapProtocol::Kademlia;
    let mut d: Discovery<u8> = Discovery::new(kademlia, vec![]);
    let text = format!("/ip4/10.0.0.1/tcp/1/p2p/{}", peer_id_to_text(&peer(1)));
    d.connections.insert(
        1,
        ConnectionInfo { direction: ConnectionDirection::Inbound, remote_addr: addr(&text) },
    );
    let own = "/ip4/10.0.0.1/tcp/1";
    let (_, actions) = d.handle_new_peer(1, peer(1), identity(&[own]), undialed());
    assert!(actions.iter().any(
        |a| matches!(a, Action::AddRoutingAddress(p, x) if *p == peer(1) && x.same(&addr(own)))
    ));
    let dialed = "/ip4/10.0.0.2/tcp/1";
    let dial = DialInfo { dialed_addrs: Some(vec![addr(dialed)]), we_dialed: true };
    let (_, actions) = d.handle_new_peer(2, peer(2), identity(&[dialed, own]), dial);
    assert!(actions.iter().any(
        |a| matches!(a, Action::AddRoutingAddress(p, x) if *p == peer(2) && x.same(&addr(dialed)))
    ));
}

/// The requests of a peer are counted outside discovery. When the peer leaves,
/// only what is named here is to be forgotten, and that count is not among it.
#[test]
fn rate_limit_window_survives_a_peer_reconnect() {
    let bootstrap = addr("/ip4/127.0.0.1/tcp/26000");
    let mut d: Discovery<u8> = Discovery::new(config(true), vec![bootstrap]);
    let remote_addr = addr("/ip4/203.0.113.9/tcp/41337");
    d.connections
        .insert(1, ConnectionInfo { direction: ConnectionDirection::Inbound, remote_addr });
    let (done, closed) = d.handle_closed_connection(peer(1), 1, true);
    assert!(closed.forget_peer);
    assert!(matches!(&done[..], [Action::RemoveDialInProgress(1)]));
    let actions = d.cleanup_peer_on_disconnect(peer(1));
    assert!(matches!(&actions[..], [Action::RemoveConnectRequestDone(p)] if *p == peer(1)));
}

/// The longest peer identifier: a hash of sixty-four bytes.
#[test]
fn longest_peer_is_read() {
    let mut bytes = vec![0x12, 0x40];
    bytes.extend_from_slice(&[7; 64]);
    let longest = ShortBytes::from_slice(&bytes).unwrap();
    let text = format!("/ip4/10.0.0.1/tcp/1/p2p/{}", peer_id_to_text(&longest));
    let read = addr(&text);
    assert_eq!(read.peer_id(), Some(longest));
    assert_eq!(read.to_text(), Some(text));
    bytes.push(7);
    assert_eq!(ShortBytes::from_slice(&bytes), None);
}
