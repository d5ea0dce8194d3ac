use malachitebft::bytes::{Bytes, ShortBytes};
use malachitebft::discovery::state::{
    BootstrapProtocol, Config as DiscoveryConfig, DialInfo, Discovery, Handler, NetworkEvent,
};
use malachitebft::engine::event::{OutboundFailureReason, PeerId};
use malachitebft::engine::network::PersistentPeersOp;
use malachitebft::network::channel::{Channel, ChannelNames};
use malachitebft::network::config::{
    quic_timing, Config, GossipSubConfig, NetworkIdentity, ProtocolNames, PubSubProtocol,
};
use malachitebft::network::ip_limits::Behaviour as IpLimits;
use malachitebft::network::metrics::Metrics;
use malachitebft::network::multiaddr::{IpAddr, Multiaddr, TransportProtocol};
use malachitebft::network::peer::{PeerInfo, PeerType, Score, Scores, ValidatorInfo};
use malachitebft::network::peers::PersistentPeerError;
use malachitebft::network::pubsub::{publish, subscribe, Enabled, NotEnabled};
use malachitebft::network::service::{
    handle_ctrl_msg, startup_subscriptions, CtrlMsg, Effect, Event, Flow, PeriodicTicks, RawMessage,
};
use malachitebft::network::state::{Action, State};
use malachitebft::network::swarm::{
    handle_swarm_event, BroadcastEvent, GossipSubEvent, IdentifyInfo, SwarmEvent, SyncEvent,
};
use malachitebft::network::validator_proof::behaviour::ProofVerificationResult;
use prometheus_client::registry::Registry;

type TestState = State<(), &'static str>;

const ALL: Enabled = Enabled { gossipsub: true, broadcast: true, sync: true };
const NOTHING: Enabled = Enabled { gossipsub: false, broadcast: false, sync: false };

fn peer(n: u8) -> PeerId {
    let mut bytes = vec![0x12, 0x20];
    bytes.extend_from_slice(&[n; 32]);
    ShortBytes::from_slice(&bytes).unwrap()
}

fn addr(text: &str) -> Multiaddr {
    Multiaddr::parse(text).unwrap()
}

fn score(n: i64) -> Score {
    Score { order: n, whole: n }
}

fn discovery_config() -> DiscoveryConfig {
    DiscoveryConfig {
        enabled: false,
        persistent_peers_only: false,
        bootstrap_protocol: BootstrapProtocol::Full,
        num_outbound_peers: 2,
        num_inbound_peers: 2,
        max_connections_per_peer: 2,
        ephemeral_connection_timeout: 5_000,
    }
}

fn config() -> Config {
    Config {
        listen_addr: addr("/ip4/127.0.0.1/tcp/26656"),
        persistent_peers: vec![],
        persistent_peers_only: false,
        discovery: discovery_config(),
        idle_connection_timeout: 60_000,
        transport: TransportProtocol::Tcp,
        gossipsub: GossipSubConfig::default(),
        pubsub_protocol: PubSubProtocol::GossipSub,
        channel_names: ChannelNames::default(),
        rpc_max_size: 1,
        pubsub_max_size: 1,
        enable_consensus: true,
        enable_sync: true,
        protocol_names: ProtocolNames::default(),
    }
}

fn state() -> TestState {
    let identity = NetworkIdentity::new("me".to_string(), (), Some("my-addr".to_string()));
    State::new(
        Discovery::new(config().discovery, vec![]),
        vec![],
        config().local_node_info(&identity, peer(0)),
        Metrics::new(&mut Registry::default()),
        false,
        true,
        Scores {
            validator: score(100),
            persistent_peer: score(50),
            full_node: score(10),
            unidentified: score(1),
        },
    )
}

fn limits() -> IpLimits {
    IpLimits::new(5, 0, &vec![], 0)
}

fn info() -> PeerInfo {
    PeerInfo {
        moniker: "peer".to_string(),
        address: addr("/ip4/10.0.0.1/tcp/26656"),
        consensus_address: None,
        consensus_public_key: None,
        peer_type: PeerType::new(false, false),
        connection_direction: None,
        score: score(10),
        topics: Vec::new(),
        is_explicit: false,
    }
}

fn ctrl(state: &mut TestState, msg: CtrlMsg) -> Vec<Effect<&'static str>> {
    let (flow, effects) = handle_ctrl_msg(state, &mut limits(), &config(), ALL, msg);
    assert_eq!(flow, Flow::Continue);
    effects
}

#[test]
fn configuration_has_defaults() {
    let names = ProtocolNames::default();
    assert_eq!(names.consensus, "/malachitebft-core-consensus/v1beta1");
    assert_eq!(names.discovery_kad, "/malachitebft-discovery/kad/v1beta1");
    assert_eq!(names.discovery_regres, "/malachitebft-discovery/reqres/v1beta1");
    assert_eq!(names.sync, "/malachitebft-sync/v1beta1");
    assert_eq!(names.validator_proof, "/malachitebft-validator-proof/v1");
    assert!(PubSubProtocol::default().is_gossipsub());
    assert!(PubSubProtocol::Broadcast.is_broadcast());
    assert!(!PubSubProtocol::GossipSub.is_broadcast());
    assert_eq!(GossipSubConfig::default().mesh_n, 6);
    assert_eq!(quic_timing().max_idle_timeout, 300);
    assert_eq!(quic_timing().keep_alive_interval, 100);
}

#[test]
fn identity_of_a_validator_has_a_proof() {
    let plain = NetworkIdentity::new("m".to_string(), 1u8, None);
    assert_eq!(plain.consensus_address(), None);
    let validator =
        NetworkIdentity::new_validator("m".to_string(), 1u8, "a".to_string(), vec![1, 2]);
    assert_eq!(validator.consensus_address(), Some("a"));
    let local = config().local_node_info(&validator, peer(3));
    assert_eq!(local.proof_bytes, Some(vec![1, 2]));
    assert_eq!(local.subscribed_topics, vec!["/consensus", "/liveness", "/proposal_parts"]);
    assert!(!local.is_validator);
}

#[test]
fn address_is_given_for_the_key_of_the_validator() {
    let v = ValidatorInfo { address: "a".to_string(), public_key: vec![1], voting_power: 1 };
    assert_eq!(v.address_for_public_key(&[1]), Some("a"));
    assert_eq!(v.address_for_public_key(&[2]), None);
}

#[test]
fn channels_are_found_by_their_names() {
    let names = ChannelNames::default();
    assert_eq!(Channel::from_gossipsub_topic(&"/liveness".to_string(), &names), Some(Channel::Liveness));
    assert_eq!(Channel::from_gossipsub_topic(&"/other".to_string(), &names), None);
    assert_eq!(Channel::from_broadcast_topic(b"/sync", &names), Some(Channel::Sync));
    assert_eq!(Channel::from_broadcast_topic(b"/other", &names), None);
    assert_eq!(Channel::ProposalParts.as_str(&names), "/proposal_parts");
}

#[test]
fn publishing_needs_the_protocol() {
    let names = ChannelNames::default();
    let sent = publish(ALL, PubSubProtocol::GossipSub, Channel::Consensus, &names, vec![1]);
    let sent = sent.ok().unwrap();
    assert_eq!((sent.protocol, sent.topic.as_str(), sent.data), (PubSubProtocol::GossipSub, "/consensus", vec![1]));
    let e = publish(NOTHING, PubSubProtocol::GossipSub, Channel::Consensus, &names, vec![]).err().unwrap();
    assert_eq!(e, NotEnabled(PubSubProtocol::GossipSub));
    assert_eq!(e.message(), "GossipSub not enabled");
    let e = subscribe(NOTHING, PubSubProtocol::Broadcast, &vec![Channel::Sync], &names).err().unwrap();
    assert_eq!(e.message(), "Broadcast not enabled");
    let topics = subscribe(ALL, PubSubProtocol::Broadcast, &vec![Channel::Sync], &names);
    assert_eq!(topics.ok().unwrap(), vec!["/sync"]);
}

#[test]
fn service_subscribes_to_what_is_enabled() {
    let subs = startup_subscriptions(&config(), ALL).ok().unwrap();
    assert_eq!(subs.len(), 2);
    assert_eq!(subs[0].protocol, PubSubProtocol::GossipSub);
    assert_eq!(subs[0].topics.len(), 3);
    assert_eq!((subs[1].protocol, subs[1].topics[0].as_str()), (PubSubProtocol::Broadcast, "/sync"));
    let gossip_only = Enabled { gossipsub: true, broadcast: false, sync: true };
    assert_eq!(
        startup_subscriptions(&config(), gossip_only).err(),
        Some(NotEnabled(PubSubProtocol::Broadcast))
    );
    let mut quiet = config();
    quiet.enable_consensus = false;
    quiet.enable_sync = false;
    assert!(startup_subscriptions(&quiet, NOTHING).ok().unwrap().is_empty());
}

#[test]
fn peers_are_logged_every_fifth_time() {
    let mut ticks = PeriodicTicks { count: 0 };
    let logged: Vec<bool> = (0..10).map(|_| ticks.tick()).collect();
    assert_eq!(logged.iter().filter(|l| **l).count(), 2);
    assert!(logged[4] && logged[9]);
    let mut last = PeriodicTicks { count: u32::MAX };
    assert!(last.tick());
    assert_eq!(last.count, 0);
}

#[test]
fn messages_are_published() {
    let mut s = state();
    let effects = ctrl(&mut s, CtrlMsg::Publish(Channel::Consensus, vec![1]));
    assert!(matches!(&effects[..], [Effect::Publish(p)] if p.topic == "/consensus"));
    let effects = ctrl(&mut s, CtrlMsg::Broadcast(Channel::Sync, vec![1]));
    assert!(matches!(&effects[..], [Effect::Publish(p)] if p.protocol == PubSubProtocol::Broadcast));
    let mut no_sync = config();
    no_sync.enable_sync = false;
    let (_, effects) = handle_ctrl_msg(
        &mut s,
        &mut limits(),
        &no_sync,
        ALL,
        CtrlMsg::Broadcast(Channel::Sync, vec![1]),
    );
    assert!(effects.is_empty());
}

#[test]
fn sync_messages_need_sync() {
    let mut s = state();
    let effects = ctrl(&mut s, CtrlMsg::SyncRequest(peer(1), vec![1]));
    assert!(matches!(&effects[..], [Effect::SyncRequest(p, d)] if *p == peer(1) && d == &vec![1]));
    s.sync_channels.insert(4, "channel");
    let (_, effects) =
        handle_ctrl_msg(&mut s, &mut limits(), &config(), NOTHING, CtrlMsg::SyncReply(4, vec![2]));
    assert!(effects.is_empty());
    assert_eq!(s.sync_channels.len(), 1);
    let effects = ctrl(&mut s, CtrlMsg::SyncReply(4, vec![2]));
    assert!(matches!(&effects[..], [Effect::SyncResponse("channel", d)] if d == &vec![2]));
    assert!(ctrl(&mut s, CtrlMsg::SyncReply(4, vec![2])).is_empty());
}

#[test]
fn new_validators_get_scores_and_slots() {
    let mut s = state();
    let mut known = info();
    known.consensus_public_key = Some(vec![9]);
    s.peer_info.insert(peer(1), known);
    s.discovery.active_connections.insert(peer(1), vec![3]);
    let validators = vec![
        ValidatorInfo { address: "val".to_string(), public_key: vec![9], voting_power: 1 },
        ValidatorInfo { address: "my-addr".to_string(), public_key: vec![8], voting_power: 1 },
    ];
    let effects = ctrl(&mut s, CtrlMsg::UpdateValidatorSet(validators));
    assert!(matches!(
        &effects[..],
        [Effect::State(Action::SetScore(p, x)), Effect::State(Action::Discovery(_))]
            if *p == peer(1) && *x == score(100)
    ));
    assert!(s.discovery.is_inbound_peer(&peer(1)));
    assert!(s.local_node.is_validator);
}

#[test]
fn verdict_on_a_proof_is_acted_on() {
    let mut s = state();
    s.peer_info.insert(peer(1), info());
    s.validator_set.push(ValidatorInfo {
        address: "val".to_string(),
        public_key: vec![9],
        voting_power: 1,
    });
    let invalid = CtrlMsg::ValidatorProofVerified {
        peer_id: peer(1),
        result: ProofVerificationResult::Invalid,
        public_key: None,
    };
    assert!(matches!(&ctrl(&mut s, invalid)[..], [Effect::Disconnect(p)] if *p == peer(1)));
    let valid = CtrlMsg::ValidatorProofVerified {
        peer_id: peer(1),
        result: ProofVerificationResult::Valid,
        public_key: Some(vec![9]),
    };
    assert!(matches!(&ctrl(&mut s, valid)[..], [Effect::State(Action::SetScore(..))]));
    assert!(s.peer_info.get(&peer(1)).unwrap().peer_type.is_validator());
}

#[test]
fn persistent_peers_are_exempt_from_limits() {
    let mut s = state();
    let mut l = limits();
    let ip = IpAddr::V4(Bytes([10, 0, 0, 1]));
    let add = || CtrlMsg::UpdatePersistentPeers(PersistentPeersOp::Add(addr("/ip4/10.0.0.1/tcp/1")));
    let remove =
        || CtrlMsg::UpdatePersistentPeers(PersistentPeersOp::Remove(addr("/ip4/10.0.0.1/tcp/1")));
    let (_, effects) = handle_ctrl_msg(&mut s, &mut l, &config(), ALL, add());
    assert!(matches!(effects.last(), Some(Effect::ReplyPersistentPeers(Ok(())))));
    assert_eq!(l.persistent_ips.get(&ip), Some(&1));
    let (_, effects) = handle_ctrl_msg(&mut s, &mut l, &config(), ALL, add());
    assert!(matches!(
        &effects[..],
        [Effect::ReplyPersistentPeers(Err(PersistentPeerError::AlreadyExists))]
    ));
    assert_eq!(l.persistent_ips.get(&ip), Some(&1));
    let (_, effects) = handle_ctrl_msg(&mut s, &mut l, &config(), ALL, remove());
    assert!(matches!(effects.last(), Some(Effect::ReplyPersistentPeers(Ok(())))));
    assert!(l.persistent_ips.is_empty());
    let (_, effects) = handle_ctrl_msg(&mut s, &mut l, &config(), ALL, remove());
    assert!(matches!(
        &effects[..],
        [Effect::ReplyPersistentPeers(Err(PersistentPeerError::NotFound))]
    ));
}

#[test]
fn state_is_dumped_and_service_shut_down() {
    let mut s = state();
    s.peer_info.insert(peer(1), info());
    let effects = ctrl(&mut s, CtrlMsg::DumpState);
    assert!(matches!(&effects[..], [Effect::ReplyDump(d)] if d.peers.len() == 1));
    let (flow, effects) =
        handle_ctrl_msg(&mut s, &mut limits(), &config(), ALL, CtrlMsg::Shutdown);
    assert_eq!(flow, Flow::Break);
    assert!(effects.is_empty());
}

fn swarm(state: &mut TestState, event: SwarmEvent<(), &'static str>) -> Vec<Effect<&'static str>> {
    handle_swarm_event(state, &config(), event)
}

#[test]
fn peer_is_scored_low_until_it_is_identified() {
    let mut s = state();
    let event = SwarmEvent::ConnectionEstablished { peer: peer(1), connection: 3, num_established: 1 };
    let effects = swarm(&mut s, event);
    assert!(matches!(
        &effects[..],
        [Effect::State(Action::SetScore(_, x)), Effect::HandleConnection(_, 3)] if *x == score(1)
    ));
    let event = SwarmEvent::ConnectionEstablished { peer: peer(1), connection: 4, num_established: 2 };
    assert!(matches!(&swarm(&mut s, event)[..], [Effect::HandleConnection(_, 4)]));
    let event = SwarmEvent::OutgoingConnectionError { connection: 5 };
    assert!(matches!(&swarm(&mut s, event)[..], [Effect::HandleFailedConnection(5)]));
}

fn identify(version: &str) -> SwarmEvent<(), &'static str> {
    SwarmEvent::IdentifyReceived {
        connection: 3,
        peer: peer(1),
        info: IdentifyInfo {
            protocol_version: version.to_string(),
            moniker: "ann".to_string(),
            listen_addrs: vec![addr("/ip4/10.0.0.7/tcp/1")],
            signed_peer_record: None,
        },
        dial: DialInfo { dialed_addrs: None, we_dialed: false },
    }
}

#[test]
fn peer_is_identified_connected_and_forgotten() {
    let mut s = state();
    assert!(swarm(&mut s, identify("/other/v1")).is_empty());

    let mut effects = swarm(&mut s, identify("/malachitebft-core-consensus/v1beta1"));
    let Some(Effect::UpdatePeer(identified)) = effects.pop() else {
        panic!("the peer is to be updated");
    };
    assert!(!identified.already_connected);
    let effects = swarm(&mut s, SwarmEvent::PeerIdentified(identified));
    assert!(matches!(
        &effects[..],
        [Effect::State(Action::SetScore(_, x)), Effect::Emit(Event::PeerConnected(p))]
            if *x == score(10) && *p == peer(1)
    ));
    assert_eq!(s.peer_info.get(&peer(1)).unwrap().moniker, "ann");
    assert!(s.discovery.is_inbound_peer(&peer(1)));

    let closed = SwarmEvent::ConnectionClosed { peer: peer(1), connection: 3, num_established: 0 };
    assert!(matches!(
        &swarm(&mut s, closed)[..],
        [Effect::State(Action::Discovery(_)), Effect::ForgetPeer(p)] if *p == peer(1)
    ));
    let effects = swarm(&mut s, SwarmEvent::PeerGone(peer(1)));
    assert!(matches!(effects.last(), Some(Effect::Emit(Event::PeerDisconnected(p))) if *p == peer(1)));
    assert!(s.peer_info.is_empty());
    assert!(s.discovery.discovered_peers.is_empty());
}

#[test]
fn messages_on_known_channels_are_reported() {
    let mut s = state();
    let message = |source, topic: &str| {
        SwarmEvent::GossipSub(GossipSubEvent::Message {
            source,
            topic: topic.to_string(),
            data: vec![5],
        })
    };
    assert!(matches!(
        &swarm(&mut s, message(Some(peer(1)), "/consensus"))[..],
        [Effect::Emit(Event::ConsensusMessage(Channel::Consensus, _, d))] if d == &vec![5]
    ));
    assert!(matches!(
        &swarm(&mut s, message(Some(peer(1)), "/liveness"))[..],
        [Effect::Emit(Event::LivenessMessage(Channel::Liveness, _, _))]
    ));
    assert!(swarm(&mut s, message(None, "/consensus")).is_empty());
    assert!(swarm(&mut s, message(Some(peer(1)), "/other")).is_empty());
    let subscribed =
        GossipSubEvent::Subscribed { peer_id: peer(1), topic: "/consensus".to_string() };
    assert!(swarm(&mut s, SwarmEvent::GossipSub(subscribed)).is_empty());

    let received = BroadcastEvent::Received(peer(1), b"/sync".to_vec(), vec![6]);
    assert!(matches!(
        &swarm(&mut s, SwarmEvent::Broadcast(received))[..],
        [Effect::Emit(Event::ConsensusMessage(Channel::Sync, _, _))]
    ));
    let subscribed = BroadcastEvent::Subscribed(peer(1), b"/sync".to_vec());
    assert!(matches!(
        &swarm(&mut s, SwarmEvent::Broadcast(subscribed))[..],
        [Effect::Emit(Event::PeerSubscribed(_, Channel::Sync))]
    ));
    let unknown = BroadcastEvent::Unsubscribed(peer(1), b"/other".to_vec());
    assert!(swarm(&mut s, SwarmEvent::Broadcast(unknown)).is_empty());
}

#[test]
fn sync_events_are_reported() {
    let mut s = state();
    let request =
        SyncEvent::Request { peer: peer(1), request_id: 4, body: vec![1], channel: "channel" };
    assert!(matches!(
        &swarm(&mut s, SwarmEvent::Sync(request))[..],
        [Effect::Emit(Event::Sync(RawMessage::Request { request_id: 4, .. }))]
    ));
    assert_eq!(s.sync_channels.get(&4), Some(&"channel"));
    assert!(swarm(&mut s, SwarmEvent::Sync(SyncEvent::InboundFailure { request_id: 4 })).is_empty());
    assert!(s.sync_channels.is_empty());
    let response = SyncEvent::Response { peer: peer(1), request_id: 5, body: vec![2] };
    assert!(matches!(
        &swarm(&mut s, SwarmEvent::Sync(response))[..],
        [Effect::Emit(Event::Sync(RawMessage::Response { request_id: 5, .. }))]
    ));
    let failure = SyncEvent::OutboundFailure {
        peer: peer(1),
        request_id: 6,
        reason: OutboundFailureReason::DialFailure,
    };
    assert!(matches!(
        &swarm(&mut s, SwarmEvent::Sync(failure))[..],
        [Effect::Emit(Event::SyncRequestFailed { request_id: 6, .. })]
    ));
    assert!(swarm(&mut s, SwarmEvent::Sync(SyncEvent::ResponseSent)).is_empty());
}

#[test]
fn other_events_are_passed_on() {
    let mut s = state();
    assert!(matches!(
        &swarm(&mut s, SwarmEvent::NewListenAddr(addr("/ip4/127.0.0.1/tcp/9")))[..],
        [Effect::Emit(Event::Listening(_))]
    ));
    assert!(matches!(
        &swarm(&mut s, SwarmEvent::Discovery(NetworkEvent::PeersRequest))[..],
        [Effect::Discovery(Handler::PeersRequest)]
    ));
    assert!(swarm(&mut s, SwarmEvent::Other).is_empty());
}
