use malachitebft::bytes::ShortBytes;
use malachitebft::discovery::state::{
    Action as DiscoveryAction, BootstrapProtocol, Config as DiscoveryConfig, ConnectionDirection,
    ConnectionInfo, DialInfo, Discovery,
};
use malachitebft::engine::event::PeerId;
use malachitebft::engine::network::PersistentPeersOp;
use malachitebft::network::channel::ChannelNames;
use malachitebft::network::config::{
    Config, GossipSubConfig, NetworkIdentity, ProtocolNames, PubSubProtocol,
};
use malachitebft::network::ip_limits::Behaviour as IpLimits;
use malachitebft::network::metrics::Metrics;
use malachitebft::network::multiaddr::{Multiaddr, TransportProtocol};
use malachitebft::network::peer::{peer_id_to_text, PeerInfo, Score, Scores};
use malachitebft::network::peers::PersistentPeerError;
use malachitebft::network::pubsub::Enabled;
use malachitebft::network::report::NetworkStateDump;
use malachitebft::network::service::{handle_ctrl_msg, CtrlMsg, Effect, Event};
use malachitebft::network::state::{Action, State};
use malachitebft::network::swarm::{handle_swarm_event, IdentifyInfo, SwarmEvent};
use prometheus_client::registry::Registry;

type Effects = Vec<Effect<()>>;
type Reply = Result<(), PersistentPeerError>;

/// A node, of which the work outside the service is done by hand.
struct Node {
    state: State<(), ()>,
    limits: IpLimits,
    config: Config,
}

const ENABLED: Enabled = Enabled { gossipsub: true, broadcast: false, sync: false };

fn peer(n: u8) -> PeerId {
    let mut bytes = vec![0x12, 0x20];
    bytes.extend_from_slice(&[n; 32]);
    ShortBytes::from_slice(&bytes).unwrap()
}

fn addr(text: &str) -> Multiaddr {
    Multiaddr::parse(text).unwrap()
}

fn quic(port: u16) -> Multiaddr {
    addr(&format!("/ip4/127.0.0.1/udp/{port}/quic-v1"))
}

fn quic_of(port: u16, p: &PeerId) -> Multiaddr {
    addr(&format!("/ip4/127.0.0.1/udp/{port}/quic-v1/p2p/{}", peer_id_to_text(p)))
}

fn peer_only(p: &PeerId) -> Multiaddr {
    addr(&format!("/p2p/{}", peer_id_to_text(p)))
}

fn copies(addrs: &[Multiaddr]) -> Vec<Multiaddr> {
    addrs.iter().map(|a| a.copy()).collect()
}

fn contains(addrs: &[Multiaddr], a: &Multiaddr) -> bool {
    addrs.iter().any(|b| b.same(a))
}

fn score(n: i64) -> Score {
    Score { order: n, whole: n }
}

impl Node {
    fn new(persistent: &[Multiaddr], only: bool, explicit: bool) -> Self {
        let discovery = DiscoveryConfig {
            enabled: false,
            persistent_peers_only: only,
            bootstrap_protocol: BootstrapProtocol::Full,
            num_outbound_peers: 20,
            num_inbound_peers: 20,
            max_connections_per_peer: 5,
            ephemeral_connection_timeout: 5_000,
        };
        let config = Config {
            listen_addr: quic(31000),
            persistent_peers: copies(persistent),
            persistent_peers_only: only,
            discovery,
            idle_connection_timeout: 60_000,
            transport: TransportProtocol::Quic,
            gossipsub: GossipSubConfig {
                enable_explicit_peering: explicit,
                ..GossipSubConfig::default()
            },
            pubsub_protocol: PubSubProtocol::GossipSub,
            channel_names: ChannelNames::default(),
            rpc_max_size: 10 * 1024 * 1024,
            pubsub_max_size: 4 * 1024 * 1024,
            enable_consensus: true,
            enable_sync: false,
            protocol_names: ProtocolNames::default(),
        };
        let identity =
            NetworkIdentity::new("node-1".to_string(), (), Some("test-address-1".to_string()));
        let state = State::new(
            Discovery::new(discovery, copies(persistent)),
            copies(persistent),
            config.local_node_info(&identity, peer(0)),
            Metrics::new(&mut Registry::default()),
            explicit,
            true,
            Scores {
                validator: score(100),
                persistent_peer: score(50),
                full_node: score(10),
                unidentified: score(1),
            },
        );
        let limits = IpLimits::new(5, 0, &copies(persistent), 0);
        Node { state, limits, config }
    }

    fn ctrl(&mut self, msg: CtrlMsg) -> Effects {
        handle_ctrl_msg(&mut self.state, &mut self.limits, &self.config, ENABLED, msg).1
    }

    fn update(&mut self, op: PersistentPeersOp<Multiaddr>) -> (Reply, Effects) {
        let mut effects = self.ctrl(CtrlMsg::UpdatePersistentPeers(op));
        match effects.pop() {
            Some(Effect::ReplyPersistentPeers(reply)) => (reply, effects),
            _ => panic!("the change is to be answered last"),
        }
    }

    fn add(&mut self, a: &Multiaddr) -> (Reply, Effects) {
        self.update(PersistentPeersOp::Add(a.copy()))
    }

    fn remove(&mut self, a: &Multiaddr) -> (Reply, Effects) {
        self.update(PersistentPeersOp::Remove(a.copy()))
    }

    fn dump(&mut self) -> NetworkStateDump {
        match self.ctrl(CtrlMsg::DumpState).pop() {
            Some(Effect::ReplyDump(dump)) => dump,
            _ => panic!("the dump is to be answered"),
        }
    }

    fn swarm(&mut self, event: SwarmEvent<(), ()>) -> Effects {
        handle_swarm_event(&mut self.state, &self.config, event)
    }

    /// A connection to `p` is made from `remote`, and the peer identifies itself.
    /// Where this node has dialed, `remote` is what it dialed.
    fn connect(&mut self, p: PeerId, connection: u64, remote: &Multiaddr, dialed: bool) -> Effects {
        self.swarm(SwarmEvent::ConnectionEstablished { peer: p, connection, num_established: 1 });
        let direction =
            if dialed { ConnectionDirection::Outbound } else { ConnectionDirection::Inbound };
        self.state
            .discovery
            .connections
            .insert(connection, ConnectionInfo { direction, remote_addr: remote.copy() });
        let dialed_addrs = if dialed { Some(vec![remote.copy()]) } else { None };
        let mut effects = self.swarm(SwarmEvent::IdentifyReceived {
            connection,
            peer: p,
            info: IdentifyInfo {
                protocol_version: "/malachitebft-core-consensus/v1beta1".to_string(),
                moniker: "node-2".to_string(),
                listen_addrs: vec![remote.copy()],
                signed_peer_record: None,
            },
            dial: DialInfo { dialed_addrs, we_dialed: dialed },
        });
        if let Some(Effect::UpdatePeer(identified)) = effects.pop() {
            effects.extend(self.swarm(SwarmEvent::PeerIdentified(identified)));
        }
        effects
    }

    /// The only connection to `p` is closed.
    fn disconnect(&mut self, p: PeerId, connection: u64) -> Effects {
        let closed = SwarmEvent::ConnectionClosed { peer: p, connection, num_established: 0 };
        let effects = self.swarm(closed);
        assert!(effects.iter().any(|e| matches!(e, Effect::ForgetPeer(q) if *q == p)));
        self.swarm(SwarmEvent::PeerGone(p))
    }

    fn known(&self, p: &PeerId) -> &PeerInfo {
        self.state.peer_info.get(p).unwrap()
    }
}

fn connected(effects: &Effects, p: PeerId) -> bool {
    effects.iter().any(|e| matches!(e, Effect::Emit(Event::PeerConnected(q)) if *q == p))
}

fn disconnected(effects: &Effects, p: PeerId) -> bool {
    effects.iter().any(|e| matches!(e, Effect::Emit(Event::PeerDisconnected(q)) if *q == p))
}

fn dials(effects: &Effects, a: &Multiaddr) -> bool {
    effects.iter().any(|e| matches!(e, Effect::State(Action::Dial(b)) if b.same(a)))
}

fn asks_to_disconnect(effects: &Effects, p: PeerId) -> bool {
    effects
        .iter()
        .any(|e| matches!(e, Effect::State(Action::DisconnectIfConnected(q)) if *q == p))
}

fn closes(effects: &Effects, p: PeerId) -> bool {
    effects.iter().any(|e| {
        matches!(
            e,
            Effect::State(Action::Discovery(DiscoveryAction::QueueClose(q, _, None))) if *q == p
        )
    })
}

#[test]
fn test_add_and_remove_persistent_peer() {
    let mut node = Node::new(&[], false, false);
    let node2_addr = quic(31001);
    assert_eq!(node.remove(&quic(31100)).0, Err(PersistentPeerError::NotFound));
    assert_eq!(node.add(&node2_addr).0, Ok(()));
    assert_eq!(node.add(&node2_addr).0, Err(PersistentPeerError::AlreadyExists));
    assert_eq!(node.remove(&node2_addr).0, Ok(()));
    assert_eq!(node.remove(&node2_addr).0, Err(PersistentPeerError::NotFound));
}

#[test]
fn test_persistent_peer_establishes_connection() {
    let mut node = Node::new(&[], false, false);
    let node2_addr = quic(32001);
    let (reply, effects) = node.add(&node2_addr);
    assert_eq!(reply, Ok(()));
    assert!(dials(&effects, &node2_addr));
    let effects = node.connect(peer(2), 1, &node2_addr, true);
    assert!(connected(&effects, peer(2)));
    assert!(node.known(&peer(2)).peer_type.is_persistent());
}

#[test]
fn test_remove_peer_during_dial() {
    let mut node = Node::new(&[], false, false);
    let unreachable = quic(33050);
    assert_eq!(node.add(&unreachable).0, Ok(()));
    let (reply, effects) = node.remove(&unreachable);
    assert_eq!(reply, Ok(()));
    assert!(matches!(
        &effects[..],
        [Effect::State(Action::Discovery(DiscoveryAction::RemoveDialDoneAddress(a)))]
            if a.same(&unreachable)
    ));
    assert_eq!(node.remove(&unreachable).0, Err(PersistentPeerError::NotFound));
}

#[test]
fn remove_address_only_persistent_peer_before_first_connection() {
    let node2_addr = quic(33501);
    let mut node = Node::new(&[node2_addr.copy()], false, false);
    let dump = node.dump();
    assert!(dump.persistent_peer_ids.is_empty());
    assert!(contains(&dump.persistent_peer_addrs, &node2_addr));

    assert_eq!(node.remove(&node2_addr).0, Ok(()));
    let dump = node.dump();
    assert!(dump.persistent_peer_ids.is_empty());
    assert!(!contains(&dump.persistent_peer_addrs, &node2_addr));
}

#[test]
fn remove_address_only_persistent_peer_after_disconnect_clears_peer_id_on_reconnect() {
    let node2_addr = quic(33511);
    let mut node = Node::new(&[node2_addr.copy()], false, false);
    let effects = node.connect(peer(2), 1, &node2_addr, true);
    assert!(connected(&effects, peer(2)));
    assert!(node.known(&peer(2)).peer_type.is_persistent());
    assert!(disconnected(&node.disconnect(peer(2), 1), peer(2)));

    assert_eq!(node.remove(&node2_addr).0, Ok(()));
    let dump = node.dump();
    assert!(!dump.persistent_peer_ids.contains(&peer(2)));
    assert!(!contains(&dump.persistent_peer_addrs, &node2_addr));

    let effects = node.connect(peer(2), 2, &quic(40000), false);
    assert!(connected(&effects, peer(2)));
    assert!(!node.dump().peers.get(&peer(2)).unwrap().peer_type.is_persistent());
}

#[test]
fn test_remove_connected_peer_in_persistent_only_mode() {
    let mut node = Node::new(&[], true, false);
    let node2_addr = quic(34001);
    assert_eq!(node.add(&node2_addr).0, Ok(()));
    assert!(connected(&node.connect(peer(2), 1, &node2_addr, true), peer(2)));

    let (reply, effects) = node.remove(&node2_addr);
    assert_eq!(reply, Ok(()));
    assert!(asks_to_disconnect(&effects, peer(2)));
    assert_eq!(node.remove(&node2_addr).0, Err(PersistentPeerError::NotFound));
    assert!(disconnected(&node.disconnect(peer(2), 1), peer(2)));
}

#[test]
fn test_add_remove_race_with_periodic_dial() {
    let node2_addr = quic(35001);
    let mut node = Node::new(&[node2_addr.copy()], false, false);
    for _ in 0..10 {
        assert_eq!(node.remove(&node2_addr).0, Ok(()));
        assert_eq!(node.add(&node2_addr).0, Ok(()));
    }
    assert_eq!(node.remove(&node2_addr).0, Ok(()));
    assert_eq!(node.add(&node2_addr).0, Ok(()));
}

#[test]
fn test_runtime_add_marks_peer_explicit_when_explicit_peering_enabled() {
    let mut node = Node::new(&[], false, true);
    let node2_addr = quic_of(36001, &peer(2));
    assert_eq!(node.add(&node2_addr).0, Ok(()));
    let effects = node.connect(peer(2), 1, &node2_addr, true);
    assert!(connected(&effects, peer(2)));
    assert!(effects
        .iter()
        .any(|e| matches!(e, Effect::State(Action::AddExplicitPeer(p)) if *p == peer(2))));
    let dump = node.dump();
    let known = dump.peers.get(&peer(2)).unwrap();
    assert!(known.is_explicit);
    assert!(known.peer_type.is_persistent());
}

#[test]
fn test_runtime_remove_clears_explicit_when_still_connected() {
    let mut node = Node::new(&[], false, true);
    let node2_addr = quic_of(37001, &peer(2));
    assert!(connected(&node.connect(peer(2), 1, &quic(40001), false), peer(2)));
    assert_eq!(node.add(&node2_addr).0, Ok(()));
    assert!(node.known(&peer(2)).is_explicit);

    let (reply, effects) = node.remove(&node2_addr);
    assert_eq!(reply, Ok(()));
    assert!(!asks_to_disconnect(&effects, peer(2)));
    let dump = node.dump();
    let known = dump.peers.get(&peer(2)).unwrap();
    assert!(!known.is_explicit);
    assert!(!known.peer_type.is_persistent());
}

#[test]
fn test_runtime_add_no_op_when_explicit_peering_disabled() {
    let mut node = Node::new(&[], false, false);
    let node2_addr = quic_of(38001, &peer(2));
    assert_eq!(node.add(&node2_addr).0, Ok(()));
    assert!(connected(&node.connect(peer(2), 1, &node2_addr, true), peer(2)));
    let dump = node.dump();
    let known = dump.peers.get(&peer(2)).unwrap();
    assert!(!known.is_explicit);
    assert!(known.peer_type.is_persistent());
}

#[test]
fn peer_only_addr_accepts_inbound_in_persistent_peers_only_mode() {
    let mut node = Node::new(&[peer_only(&peer(2))], true, false);
    assert!(connected(&node.connect(peer(2), 1, &quic(40002), false), peer(2)));
    assert!(node.dump().peers.get(&peer(2)).unwrap().peer_type.is_persistent());
}

#[test]
fn peer_only_addr_rejects_unknown_in_persistent_peers_only_mode() {
    let mut node = Node::new(&[peer_only(&peer(2))], true, false);
    assert!(connected(&node.connect(peer(2), 1, &quic(40003), false), peer(2)));
    let effects = node.connect(peer(3), 2, &quic(40004), false);
    assert!(!connected(&effects, peer(3)));
    assert!(closes(&effects, peer(3)));
    assert!(disconnected(&node.disconnect(peer(3), 2), peer(3)));
}
