//! What the network service does for each event of the swarm.

use vstd::prelude::*;
use vstd::string::*;

use crate::discovery::state::{
    action_views, addresses, dialed_view, handler_for, Action as DiscoveryAction,
    ActionView as DiscoveryActionView, ConnectionId, DialInfo, NetworkEvent, PeerIdentity,
};
use crate::engine::event::{OutboundFailureReason, PeerId};
use crate::ident::OrdMap;
use crate::network::channel::{Channel, ChannelNames};
use crate::network::config::Config;
use crate::network::multiaddr::Multiaddr;
use crate::network::report::copy_of_addresses;
use crate::network::service::{
    append_effect, append_state_work, effect_views, no_effects, one_effect, state_work, Effect,
    EffectView, Event, EventView, Identified, IdentifiedView, RawMessage,
};
use crate::network::state::{
    append_discovery_work, append_work, discovery_work, unspecified_address, work, Action,
    ActionView, State, StateView,
};
use crate::network::validator_proof::behaviour::Event as ProofEvent;

verus! {

/// What a peer says of itself when it identifies itself. `E` is its signed
/// record.
pub struct IdentifyInfo<E> {
    pub protocol_version: String,
    /// The moniker in the agent version.
    pub moniker: String,
    pub listen_addrs: Vec<Multiaddr>,
    pub signed_peer_record: Option<E>,
}

/// An event of gossipsub.
pub enum GossipSubEvent {
    Subscribed { peer_id: PeerId, topic: String },
    Unsubscribed { peer_id: PeerId, topic: String },
    /// A message, with the peer that it comes from where it names one.
    Message { source: Option<PeerId>, topic: String, data: Vec<u8> },
    SlowPeer,
    GossipsubNotSupported,
}

/// An event of the broadcast protocol. A topic is given by its bytes.
pub enum BroadcastEvent {
    Subscribed(PeerId, Vec<u8>),
    Unsubscribed(PeerId, Vec<u8>),
    Received(PeerId, Vec<u8>, Vec<u8>),
}

/// An event of the sync protocol. `C` is what a request is answered through.
pub enum SyncEvent<C> {
    Request { peer: PeerId, request_id: u64, body: Vec<u8>, channel: C },
    Response { peer: PeerId, request_id: u64, body: Vec<u8> },
    ResponseSent,
    OutboundFailure { peer: PeerId, request_id: u64, reason: OutboundFailureReason },
    InboundFailure { request_id: u64 },
}

/// An event of the swarm.
pub enum SwarmEvent<E, C> {
    NewListenAddr(Multiaddr),
    /// A connection was made; how many there are to the peer now.
    ConnectionEstablished { peer: PeerId, connection: ConnectionId, num_established: u32 },
    OutgoingConnectionError { connection: ConnectionId },
    /// A connection was closed; how many are left to the peer.
    ConnectionClosed { peer: PeerId, connection: ConnectionId, num_established: u32 },
    /// A peer has no connection left, and its outbound slot was filled again.
    PeerGone(PeerId),
    /// A peer identified itself, with what is known of the dialing of the peer.
    IdentifyReceived {
        connection: ConnectionId,
        peer: PeerId,
        info: IdentifyInfo<E>,
        dial: DialInfo,
    },
    /// A peer is identified, and discovery has done its work.
    PeerIdentified(Identified),
    GossipSub(GossipSubEvent),
    Broadcast(BroadcastEvent),
    Sync(SyncEvent<C>),
    ValidatorProof(ProofEvent),
    Discovery(NetworkEvent),
    /// Anything else.
    Other,
}

/// The event that reports a message on `channel`.
pub open spec fn message_event(channel: Channel, from: PeerId, data: Seq<u8>) -> EventView {
    if channel == Channel::Liveness {
        EventView::LivenessMessage(channel, from, data)
    } else {
        EventView::ConsensusMessage(channel, from, data)
    }
}

/// What follows from an event of gossipsub: a message of a known peer on a
/// known channel is reported.
pub open spec fn gossipsub_effects<C>(names: ChannelNames, event: GossipSubEvent) -> Seq<EffectView<C>> {
    match event {
        GossipSubEvent::Message { source: Some(peer), topic, data } => match names.channel_of(topic@) {
            Some(channel) => seq![EffectView::Emit(message_event(channel, peer, data@))],
            None => Seq::empty(),
        },
        _ => Seq::empty(),
    }
}

/// What follows from an event of the broadcast protocol, on a known channel.
pub open spec fn broadcast_effects<C>(names: ChannelNames, event: BroadcastEvent) -> Seq<EffectView<C>> {
    match event {
        BroadcastEvent::Subscribed(peer, topic) => match names.channel_of_bytes(topic@) {
            Some(channel) => seq![EffectView::Emit(EventView::PeerSubscribed(peer, channel))],
            None => Seq::empty(),
        },
        BroadcastEvent::Unsubscribed(peer, topic) => match names.channel_of_bytes(topic@) {
            Some(channel) => seq![EffectView::Emit(EventView::PeerUnsubscribed(peer, channel))],
            None => Seq::empty(),
        },
        BroadcastEvent::Received(peer, topic, data) => match names.channel_of_bytes(topic@) {
            Some(channel) => seq![EffectView::Emit(message_event(channel, peer, data@))],
            None => Seq::empty(),
        },
    }
}

/// The requests that can be answered after an event of the sync protocol, and
/// what follows from it.
pub open spec fn sync_effects<C>(channels: Map<u64, C>, event: SyncEvent<C>) -> (
    Map<u64, C>,
    Seq<EffectView<C>>,
) {
    match event {
        SyncEvent::Request { peer, request_id, body, channel } => (
            channels.insert(request_id, channel),
            seq![EffectView::Emit(EventView::SyncRequest(request_id, peer, body@))],
        ),
        SyncEvent::Response { peer, request_id, body } => (
            channels,
            seq![EffectView::Emit(EventView::SyncResponse(request_id, peer, body@))],
        ),
        SyncEvent::ResponseSent => (channels, Seq::empty()),
        SyncEvent::OutboundFailure { peer, request_id, reason } => (
            channels,
            seq![EffectView::Emit(EventView::SyncRequestFailed(request_id, peer, reason))],
        ),
        SyncEvent::InboundFailure { request_id } => (channels.remove(request_id), Seq::empty()),
    }
}

/// What follows from an event of the validator proofs: a proof is reported.
pub open spec fn proof_effects<C>(event: ProofEvent) -> Seq<EffectView<C>> {
    match event {
        ProofEvent::ProofReceived { peer, proof_bytes } => seq![
            EffectView::Emit(EventView::ValidatorProofReceived(peer, proof_bytes@)),
        ],
        _ => Seq::empty(),
    }
}

/// What follows from a closed connection: its dial is no longer in progress,
/// the outbound peers are repaired, a peer with no connection left is forgotten.
pub open spec fn closed_effects<E, C>(
    s: StateView<E, C>,
    peer: PeerId,
    connection: ConnectionId,
    num_established: u32,
) -> Seq<EffectView<C>> {
    seq![
        EffectView::State(
            ActionView::Discovery(DiscoveryActionView::RemoveDialInProgress(connection)),
        ),
    ] + (if s.discovery.outbound.contains_key(peer) && s.discovery.config.enabled {
        seq![EffectView::<C>::RepairOutboundPeers]
    } else {
        Seq::empty()
    }) + (if num_established == 0 {
        seq![EffectView::<C>::ForgetPeer(peer)]
    } else {
        seq![EffectView::<C>::State(ActionView::Discovery(DiscoveryActionView::UpdateMetrics))]
    })
}

/// The state after a peer has no connection left, and what follows.
pub open spec fn gone<E, C>(s: StateView<E, C>, peer: PeerId) -> (
    StateView<E, C>,
    Seq<EffectView<C>>,
) {
    let (discovery, forgotten) = s.discovery.forgotten(peer);
    let (next, actions) = (StateView { discovery, ..s }).peer_left(peer);
    let work = discovery_work(forgotten.push(DiscoveryActionView::UpdateMetrics));
    (
        next,
        state_work(work + actions).push(
            EffectView::Emit(EventView::PeerDisconnected(peer)),
        ),
    )
}

/// The state after a peer was identified and discovery has done its work, and
/// what follows.
pub open spec fn updated<E, C>(s: StateView<E, C>, i: IdentifiedView) -> (
    StateView<E, C>,
    Seq<EffectView<C>>,
) {
    let (s1, score) = s.identified(
        i.peer,
        i.connection,
        s.address_on(i.connection, i.listen_addrs, unspecified_address()),
        i.moniker,
    );
    let (s2, _, moved) = s1.prioritized(i.peer);
    let (s3, made_explicit) = s2.explicit_added(i.peer);
    let effects = state_work::<C>(s1.score_work(i.peer, score) + moved + made_explicit);
    (
        s3,
        if i.already_connected {
            effects
        } else {
            effects.push(EffectView::Emit(EventView::PeerConnected(i.peer)))
        },
    )
}

/// The state after an event of the swarm, and what follows.
pub open spec fn swarm_step<E, C>(s: StateView<E, C>, config: Config, event: SwarmEvent<E, C>) -> (
    StateView<E, C>,
    Seq<EffectView<C>>,
) {
    match event {
        SwarmEvent::NewListenAddr(address) => (
            s,
            seq![EffectView::Emit(EventView::Listening(address@))],
        ),
        SwarmEvent::ConnectionEstablished { peer, connection, num_established } => (
            s,
            state_work::<C>(
                if num_established == 1 {
                    s.score_work(peer, s.scores.unidentified)
                } else {
                    Seq::empty()
                },
            ).push(EffectView::HandleConnection(peer, connection)),
        ),
        SwarmEvent::OutgoingConnectionError { connection } => (
            s,
            seq![EffectView::HandleFailedConnection(connection)],
        ),
        SwarmEvent::ConnectionClosed { peer, connection, num_established } => (
            StateView {
                discovery: s.discovery.closed(peer, connection, num_established == 0),
                ..s
            },
            closed_effects(s, peer, connection, num_established),
        ),
        SwarmEvent::PeerGone(peer) => gone(s, peer),
        SwarmEvent::IdentifyReceived { connection, peer, info, dial } => if info.protocol_version@
            == config.protocol_names.consensus@ {
            let (discovery, already_connected, actions) = s.discovery.new_peer(
                connection,
                peer,
                addresses(info.listen_addrs@),
                info.signed_peer_record,
                dialed_view(dial.dialed_addrs),
                dial.we_dialed,
            );
            (
                StateView { discovery, ..s },
                state_work::<C>(discovery_work(actions)).push(
                    EffectView::UpdatePeer(
                        IdentifiedView {
                            connection,
                            peer,
                            listen_addrs: addresses(info.listen_addrs@),
                            moniker: info.moniker@,
                            already_connected,
                        },
                    ),
                ),
            )
        } else {
            (s, Seq::empty())
        },
        SwarmEvent::PeerIdentified(i) => updated(s, i@),
        SwarmEvent::GossipSub(e) => (s, gossipsub_effects(config.channel_names, e)),
        SwarmEvent::Broadcast(e) => (s, broadcast_effects(config.channel_names, e)),
        SwarmEvent::Sync(e) => {
            let (sync_channels, effects) = sync_effects(s.sync_channels, e);
            (StateView { sync_channels, ..s }, effects)
        },
        SwarmEvent::ValidatorProof(e) => (s, proof_effects(e)),
        SwarmEvent::Discovery(e) => (
            s,
            seq![EffectView::Discovery(handler_for(s.discovery.state, e))],
        ),
        SwarmEvent::Other => (s, Seq::empty()),
    }
}

/// The event that reports a message on `channel`.
fn message(channel: Channel, from: PeerId, data: Vec<u8>) -> (r: Event)
    ensures
        r@ == message_event(channel, from, data@),
{
    if channel == Channel::Liveness {
        Event::LivenessMessage(channel, from, data)
    } else {
        Event::ConsensusMessage(channel, from, data)
    }
}

/// What follows from an event of gossipsub. Subscriptions are not reported.
pub fn handle_gossipsub_event<C>(event: GossipSubEvent, config: &Config) -> (r: Vec<Effect<C>>)
    ensures
        effect_views(r@) == gossipsub_effects::<C>(config.channel_names, event),
{
    match event {
        GossipSubEvent::Message { source, topic, data } => {
            match (source, Channel::from_gossipsub_topic(&topic, &config.channel_names)) {
                (Some(peer), Some(channel)) => one_effect(Effect::Emit(message(channel, peer, data))),
                _ => no_effects(),
            }
        },
        _ => no_effects(),
    }
}

/// What follows from an event of the broadcast protocol.
pub fn handle_broadcast_event<C>(event: BroadcastEvent, config: &Config) -> (r: Vec<Effect<C>>)
    ensures
        effect_views(r@) == broadcast_effects::<C>(config.channel_names, event),
{
    match event {
        BroadcastEvent::Subscribed(peer, topic) => {
            match Channel::from_broadcast_topic(topic.as_slice(), &config.channel_names) {
                Some(channel) => one_effect(Effect::Emit(Event::PeerSubscribed(peer, channel))),
                None => no_effects(),
            }
        },
        BroadcastEvent::Unsubscribed(peer, topic) => {
            match Channel::from_broadcast_topic(topic.as_slice(), &config.channel_names) {
                Some(channel) => one_effect(Effect::Emit(Event::PeerUnsubscribed(peer, channel))),
                None => no_effects(),
            }
        },
        BroadcastEvent::Received(peer, topic, data) => {
            match Channel::from_broadcast_topic(topic.as_slice(), &config.channel_names) {
                Some(channel) => one_effect(Effect::Emit(message(channel, peer, data))),
                None => no_effects(),
            }
        },
    }
}

/// What follows from an event of the sync protocol. A request is kept until it
/// is answered or has failed.
pub fn handle_sync_event<C>(event: SyncEvent<C>, sync_channels: &mut OrdMap<u64, C>) -> (r: Vec<Effect<C>>)
    requires
        old(sync_channels).wf(),
    ensures
        final(sync_channels).wf(),
        (final(sync_channels)@, effect_views(r@)) == sync_effects(old(sync_channels)@, event),
{
    match event {
        SyncEvent::Request { peer, request_id, body, channel } => {
            sync_channels.insert(request_id, channel);
            one_effect(Effect::Emit(Event::Sync(RawMessage::Request { request_id, peer, body })))
        },
        SyncEvent::Response { peer, request_id, body } => one_effect(
            Effect::Emit(Event::Sync(RawMessage::Response { request_id, peer, body })),
        ),
        SyncEvent::ResponseSent => no_effects(),
        SyncEvent::OutboundFailure { peer, request_id, reason } => one_effect(
            Effect::Emit(Event::SyncRequestFailed { request_id, peer, reason }),
        ),
        SyncEvent::InboundFailure { request_id } => {
            sync_channels.remove(&request_id);
            no_effects()
        },
    }
}

/// What follows from an event of the validator proofs.
pub fn handle_validator_proof_event<C>(event: ProofEvent) -> (r: Vec<Effect<C>>)
    ensures
        effect_views(r@) == proof_effects::<C>(event),
{
    match event {
        ProofEvent::ProofReceived { peer, proof_bytes } => one_effect(
            Effect::Emit(Event::ValidatorProofReceived { peer_id: peer, proof_bytes }),
        ),
        _ => no_effects(),
    }
}

/// Forget a peer that has no connection left.
fn handle_gone<E, C>(state: &mut State<E, C>, peer: PeerId) -> (r: Vec<Effect<C>>)
    requires
        old(state).wf(),
    ensures
        final(state).wf(),
        (final(state)@, effect_views(r@)) == gone(old(state)@, peer),
{
    let ghost want = gone(state@, peer);
    let mut forgotten = state.discovery.cleanup_peer_on_disconnect(peer);
    let ghost before = forgotten@;
    forgotten.push(DiscoveryAction::UpdateMetrics);
    assert(action_views(forgotten@) =~= action_views(before).push(
        DiscoveryActionView::UpdateMetrics,
    ));
    let mut actions: Vec<Action> = Vec::new();
    append_discovery_work(&mut actions, forgotten);
    let left = state.remove_peer(&peer);
    append_work(&mut actions, left);
    let mut effects = no_effects();
    append_state_work(&mut effects, actions);
    append_effect(&mut effects, Effect::Emit(Event::PeerDisconnected(peer)));
    assert(effect_views(effects@) =~= want.1);
    effects
}

/// Take in an identified peer, after discovery has done its work.
fn handle_identified<E, C>(state: &mut State<E, C>, i: Identified) -> (r: Vec<Effect<C>>)
    requires
        old(state).wf(),
    ensures
        final(state).wf(),
        (final(state)@, effect_views(r@)) == updated(old(state)@, i@),
{
    let ghost want = updated(state@, i@);
    let peer = i.peer;
    let score = state.update_peer(peer, i.connection, &i.listen_addrs, i.moniker);
    let mut actions = state.set_peer_score(peer, score);
    let (_, moved) = state.try_prioritize_peer(peer);
    append_work(&mut actions, moved);
    let made_explicit = state.add_explicit_peer_to_gossipsub(peer);
    append_work(&mut actions, made_explicit);
    let mut effects = no_effects();
    append_state_work(&mut effects, actions);
    if !i.already_connected {
        append_effect(&mut effects, Effect::Emit(Event::PeerConnected(peer)));
    }
    assert(effect_views(effects@) =~= want.1);
    effects
}

/// Take in what a peer says of itself, where it speaks the same protocol.
fn handle_identify<E, C>(
    state: &mut State<E, C>,
    config: &Config,
    connection: ConnectionId,
    peer: PeerId,
    info: IdentifyInfo<E>,
    dial: DialInfo,
) -> (r: Vec<Effect<C>>)
    requires
        old(state).wf(),
    ensures
        final(state).wf(),
        (final(state)@, effect_views(r@)) == swarm_step(
            old(state)@,
            *config,
            SwarmEvent::IdentifyReceived { connection, peer, info, dial },
        ),
{
    let ghost want = swarm_step(
        state@,
        *config,
        SwarmEvent::IdentifyReceived { connection, peer, info, dial },
    );
    if info.protocol_version != config.protocol_names.consensus {
        return no_effects();
    }
    let listen_addrs = copy_of_addresses(&info.listen_addrs);
    let identity = PeerIdentity {
        listen_addrs: info.listen_addrs,
        signed_peer_record: info.signed_peer_record,
    };
    let (already_connected, found) = state.discovery.handle_new_peer(connection, peer, identity, dial);
    let mut actions: Vec<Action> = Vec::new();
    append_discovery_work(&mut actions, found);
    assert(work(actions@) =~= discovery_work(action_views(found@)));
    let mut effects = no_effects();
    append_state_work(&mut effects, actions);
    append_effect(
        &mut effects,
        Effect::UpdatePeer(
            Identified { connection, peer, listen_addrs, moniker: info.moniker, already_connected },
        ),
    );
    assert(effect_views(effects@) =~= want.1);
    effects
}

/// Take in that a connection was closed.
fn handle_closed<E, C>(
    state: &mut State<E, C>,
    peer: PeerId,
    connection: ConnectionId,
    num_established: u32,
) -> (r: Vec<Effect<C>>)
    requires
        old(state).wf(),
    ensures
        final(state).wf(),
        final(state)@ == (StateView {
            discovery: old(state)@.discovery.closed(peer, connection, num_established == 0),
            ..old(state)@
        }),
        effect_views(r@) == closed_effects(old(state)@, peer, connection, num_established),
{
    let ghost start = state@;
    let (done, closed) = state.discovery.handle_closed_connection(
        peer,
        connection,
        num_established == 0,
    );
    let mut actions: Vec<Action> = Vec::new();
    append_discovery_work(&mut actions, done);
    let mut effects = no_effects();
    append_state_work(&mut effects, actions);
    if closed.repair_outbound_peers {
        append_effect(&mut effects, Effect::RepairOutboundPeers);
    }
    if closed.forget_peer {
        append_effect(&mut effects, Effect::ForgetPeer(peer));
    } else {
        append_effect(
            &mut effects,
            Effect::State(Action::Discovery(DiscoveryAction::UpdateMetrics)),
        );
    }
    assert(effect_views(effects@) =~= closed_effects(start, peer, connection, num_established));
    effects
}

/// What follows from an event of the swarm.
pub fn handle_swarm_event<E, C>(state: &mut State<E, C>, config: &Config, event: SwarmEvent<E, C>) -> (r: Vec<
    Effect<C>,
>)
    requires
        old(state).wf(),
    ensures
        final(state).wf(),
        (final(state)@, effect_views(r@)) == swarm_step(old(state)@, *config, event),
{
    let ghost start = state@;
    match event {
        SwarmEvent::NewListenAddr(address) => one_effect(Effect::Emit(Event::Listening(address))),
        SwarmEvent::ConnectionEstablished { peer, connection, num_established } => {
            let mut effects = no_effects();
            if num_established == 1 {
                let scored = state.set_peer_score(peer, state.scores.unidentified);
                append_state_work(&mut effects, scored);
                assert(effect_views(effects@) =~= state_work::<C>(
                    start.score_work(peer, start.scores.unidentified),
                ));
            } else {
                assert(effect_views(effects@) =~= state_work::<C>(Seq::empty()));
            }
            append_effect(&mut effects, Effect::HandleConnection(peer, connection));
            effects
        },
        SwarmEvent::OutgoingConnectionError { connection } => one_effect(
            Effect::HandleFailedConnection(connection),
        ),
        SwarmEvent::ConnectionClosed { peer, connection, num_established } => handle_closed(
            state,
            peer,
            connection,
            num_established,
        ),
        SwarmEvent::PeerGone(peer) => handle_gone(state, peer),
        SwarmEvent::IdentifyReceived { connection, peer, info, dial } => handle_identify(
            state,
            config,
            connection,
            peer,
            info,
            dial,
        ),
        SwarmEvent::PeerIdentified(i) => handle_identified(state, i),
        SwarmEvent::GossipSub(e) => handle_gossipsub_event(e, config),
        SwarmEvent::Broadcast(e) => handle_broadcast_event(e, config),
        SwarmEvent::Sync(e) => handle_sync_event(e, &mut state.sync_channels),
        SwarmEvent::ValidatorProof(e) => handle_validator_proof_event(e),
        SwarmEvent::Discovery(e) => one_effect(
            Effect::Discovery(state.discovery.on_network_event(e)),
        ),
        SwarmEvent::Other => no_effects(),
    }
}

} // verus!
