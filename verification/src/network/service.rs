//! The network service: what it does for each control message and for each
//! event of the swarm.

use vstd::prelude::*;
use vstd::string::*;

use crate::discovery::state::{addresses, AddressView, ConnectionId, Handler};
use crate::engine::event::{OutboundFailureReason, PeerId};
use crate::engine::network::PersistentPeersOp;
use crate::network::channel::{Channel, ChannelNames};
use crate::network::config::{Config, PubSubProtocol};
use crate::network::ip_limits::{extract_ip, ip_key, peers_per_ip, Behaviour as IpLimits, LimitsView};
use crate::network::membership::is_first;
use crate::network::multiaddr::{IpAddr, Multiaddr};
use crate::network::peer::{validator_views, Score, ValidatorInfo, ValidatorView};
use crate::network::peers::PersistentPeerError;
use crate::network::pubsub::{publish, subscribe, topics, Enabled, NotEnabled, Publication};
use crate::network::report::NetworkStateDump;
use crate::network::state::{append_work, distinct, work, Action, ActionView, State, StateView};
use crate::network::validator_proof::behaviour::ProofVerificationResult;
use crate::text::texts;

verus! {

/// A message of the sync protocol.
#[derive(Clone, Debug)]
pub enum RawMessage {
    /// A peer asks for values.
    Request { request_id: u64, peer: PeerId, body: Vec<u8> },
    /// A peer answers.
    Response { request_id: u64, peer: PeerId, body: Vec<u8> },
}

/// An event that the service reports.
#[derive(Clone, Debug)]
pub enum Event {
    Listening(Multiaddr),
    PeerConnected(PeerId),
    PeerDisconnected(PeerId),
    PeerSubscribed(PeerId, Channel),
    PeerUnsubscribed(PeerId, Channel),
    ConsensusMessage(Channel, PeerId, Vec<u8>),
    LivenessMessage(Channel, PeerId, Vec<u8>),
    Sync(RawMessage),
    /// A request could not be delivered or completed.
    SyncRequestFailed { request_id: u64, peer: PeerId, reason: OutboundFailureReason },
    /// A peer has sent its validator proof.
    ValidatorProofReceived { peer_id: PeerId, proof_bytes: Vec<u8> },
}

/// An event that the service reports, as a value.
pub enum EventView {
    Listening(AddressView),
    PeerConnected(PeerId),
    PeerDisconnected(PeerId),
    PeerSubscribed(PeerId, Channel),
    PeerUnsubscribed(PeerId, Channel),
    ConsensusMessage(Channel, PeerId, Seq<u8>),
    LivenessMessage(Channel, PeerId, Seq<u8>),
    SyncRequest(u64, PeerId, Seq<u8>),
    SyncResponse(u64, PeerId, Seq<u8>),
    SyncRequestFailed(u64, PeerId, OutboundFailureReason),
    ValidatorProofReceived(PeerId, Seq<u8>),
}

impl View for Event {
    type V = EventView;

    open spec fn view(&self) -> EventView {
        match self {
            Event::Listening(a) => EventView::Listening(a@),
            Event::PeerConnected(p) => EventView::PeerConnected(*p),
            Event::PeerDisconnected(p) => EventView::PeerDisconnected(*p),
            Event::PeerSubscribed(p, c) => EventView::PeerSubscribed(*p, *c),
            Event::PeerUnsubscribed(p, c) => EventView::PeerUnsubscribed(*p, *c),
            Event::ConsensusMessage(c, p, d) => EventView::ConsensusMessage(*c, *p, d@),
            Event::LivenessMessage(c, p, d) => EventView::LivenessMessage(*c, *p, d@),
            Event::Sync(RawMessage::Request { request_id, peer, body }) => EventView::SyncRequest(
                *request_id,
                *peer,
                body@,
            ),
            Event::Sync(RawMessage::Response { request_id, peer, body }) => EventView::SyncResponse(
                *request_id,
                *peer,
                body@,
            ),
            Event::SyncRequestFailed { request_id, peer, reason } => EventView::SyncRequestFailed(
                *request_id,
                *peer,
                *reason,
            ),
            Event::ValidatorProofReceived { peer_id, proof_bytes } => EventView::ValidatorProofReceived(
                *peer_id,
                proof_bytes@,
            ),
        }
    }
}

/// A message that controls the service.
#[derive(Debug)]
pub enum CtrlMsg {
    Publish(Channel, Vec<u8>),
    Broadcast(Channel, Vec<u8>),
    /// Ask a peer for values.
    SyncRequest(PeerId, Vec<u8>),
    /// Answer a request.
    SyncReply(u64, Vec<u8>),
    UpdateValidatorSet(Vec<ValidatorInfo>),
    /// The verdict on a validator proof, with the public key where it is valid.
    ValidatorProofVerified {
        peer_id: PeerId,
        result: ProofVerificationResult,
        public_key: Option<Vec<u8>>,
    },
    DumpState,
    UpdatePersistentPeers(PersistentPeersOp<Multiaddr>),
    Shutdown,
}

/// What is left to do for an identified peer once discovery has done its work.
pub struct Identified {
    pub connection: ConnectionId,
    pub peer: PeerId,
    pub listen_addrs: Vec<Multiaddr>,
    pub moniker: String,
    pub already_connected: bool,
}

/// What is left to do for an identified peer, as a value.
pub struct IdentifiedView {
    pub connection: ConnectionId,
    pub peer: PeerId,
    pub listen_addrs: Seq<AddressView>,
    pub moniker: Seq<char>,
    pub already_connected: bool,
}

impl View for Identified {
    type V = IdentifiedView;

    open spec fn view(&self) -> IdentifiedView {
        IdentifiedView {
            connection: self.connection,
            peer: self.peer,
            listen_addrs: addresses(self.listen_addrs@),
            moniker: self.moniker@,
            already_connected: self.already_connected,
        }
    }
}

/// Work outside the service. `C` is what a request is answered through.
pub enum Effect<C> {
    /// Work outside the state.
    State(Action),
    /// Publish a message.
    Publish(Publication),
    /// Send a request, and reply with its number.
    SyncRequest(PeerId, Vec<u8>),
    /// Answer a request.
    SyncResponse(C, Vec<u8>),
    /// Disconnect a peer.
    Disconnect(PeerId),
    /// Reply with what is known of the network.
    ReplyDump(NetworkStateDump),
    /// Reply whether the persistent peers were changed.
    ReplyPersistentPeers(Result<(), PersistentPeerError>),
    /// Report an event. Where nobody listens, the service ends.
    Emit(Event),
    /// Let discovery take in a connection.
    HandleConnection(PeerId, ConnectionId),
    /// Let discovery take in that a dial failed.
    HandleFailedConnection(ConnectionId),
    /// Let discovery find other outbound peers.
    RepairOutboundPeers,
    /// Once that is done, hand back that the peer is gone.
    ForgetPeer(PeerId),
    /// Once the work before is done, hand back that the peer is identified.
    UpdatePeer(Identified),
    /// Let discovery handle one of its events.
    Discovery(Handler),
}

/// Work outside the service, as a value.
#[verifier::reject_recursive_types(C)]
pub enum EffectView<C> {
    State(ActionView),
    Publish(PubSubProtocol, Seq<char>, Seq<u8>),
    SyncRequest(PeerId, Seq<u8>),
    SyncResponse(C, Seq<u8>),
    Disconnect(PeerId),
    ReplyDump,
    /// With the text of the error, if there was one.
    ReplyPersistentPeers(Option<Seq<char>>),
    Emit(EventView),
    HandleConnection(PeerId, ConnectionId),
    HandleFailedConnection(ConnectionId),
    RepairOutboundPeers,
    ForgetPeer(PeerId),
    UpdatePeer(IdentifiedView),
    Discovery(Handler),
}

impl<C> View for Effect<C> {
    type V = EffectView<C>;

    open spec fn view(&self) -> EffectView<C> {
        match self {
            Effect::State(a) => EffectView::State(a@),
            Effect::Publish(p) => EffectView::Publish(p.protocol, p.topic@, p.data@),
            Effect::SyncRequest(p, d) => EffectView::SyncRequest(*p, d@),
            Effect::SyncResponse(c, d) => EffectView::SyncResponse(*c, d@),
            Effect::Disconnect(p) => EffectView::Disconnect(*p),
            Effect::ReplyDump(_) => EffectView::ReplyDump,
            Effect::ReplyPersistentPeers(Ok(_)) => EffectView::ReplyPersistentPeers(None),
            Effect::ReplyPersistentPeers(Err(e)) => EffectView::ReplyPersistentPeers(
                Some(e.text()),
            ),
            Effect::Emit(e) => EffectView::Emit(e@),
            Effect::HandleConnection(p, c) => EffectView::HandleConnection(*p, *c),
            Effect::HandleFailedConnection(c) => EffectView::HandleFailedConnection(*c),
            Effect::RepairOutboundPeers => EffectView::RepairOutboundPeers,
            Effect::ForgetPeer(p) => EffectView::ForgetPeer(*p),
            Effect::UpdatePeer(i) => EffectView::UpdatePeer(i@),
            Effect::Discovery(h) => EffectView::Discovery(*h),
        }
    }
}

/// Work outside the service, as values.
pub open spec fn effect_views<C>(effects: Seq<Effect<C>>) -> Seq<EffectView<C>> {
    effects.map_values(|e: Effect<C>| e@)
}

/// Work outside the state is work outside the service.
pub open spec fn state_work<C>(actions: Seq<ActionView>) -> Seq<EffectView<C>> {
    actions.map_values(|a: ActionView| EffectView::<C>::State(a))
}

/// Whether the service goes on.
#[derive(Clone, Copy, Debug, PartialEq, Eq, Structural)]
pub enum Flow {
    Continue,
    Break,
}

/// Whether the service goes on after an event was to be reported: it ends where
/// nobody listens.
pub fn after_emit(sent: bool) -> (r: Flow)
    ensures
        r == if sent {
            Flow::Continue
        } else {
            Flow::Break
        },
{
    if sent {
        Flow::Continue
    } else {
        Flow::Break
    }
}

/// Put work outside the state behind `effects`.
pub fn append_state_work<C>(effects: &mut Vec<Effect<C>>, more: Vec<Action>)
    ensures
        effect_views(final(effects)@) == effect_views(old(effects)@) + state_work(work(more@)),
{
    let mut more = more;
    let ghost all = more@;
    let ghost want = state_work::<C>(work(all));
    assert(effect_views(effects@) =~= effect_views(old(effects)@) + want.subrange(0, 0));
    while more.len() > 0
        invariant
            want == state_work::<C>(work(all)),
            more@.len() <= all.len(),
            more@ == all.subrange(all.len() - more@.len(), all.len() as int),
            effect_views(effects@) == effect_views(old(effects)@) + want.subrange(
                0,
                all.len() - more@.len(),
            ),
        decreases more@.len(),
    {
        let ghost before = effects@;
        let ghost k = all.len() - more@.len();
        let action = more.remove(0);
        assert(action == all[k]);
        effects.push(Effect::State(action));
        proof {
            assert(more@ =~= all.subrange(k + 1, all.len() as int));
            assert(effect_views(effects@) =~= effect_views(before).push(
                EffectView::State(action@),
            ));
            assert(want[k] == EffectView::<C>::State(action@));
            assert(want.subrange(0, k + 1) =~= want.subrange(0, k).push(want[k]));
            assert(effect_views(effects@) =~= effect_views(old(effects)@) + want.subrange(0, k + 1));
        }
    }
    assert(want.subrange(0, all.len() as int) =~= want);
}

/// Put one effect behind `effects`.
pub fn append_effect<C>(effects: &mut Vec<Effect<C>>, effect: Effect<C>)
    ensures
        effect_views(final(effects)@) == effect_views(old(effects)@).push(effect@),
{
    let ghost before = effects@;
    effects.push(effect);
    assert(effect_views(effects@) =~= effect_views(before).push(effect@));
}

/// No effects.
pub fn no_effects<C>() -> (r: Vec<Effect<C>>)
    ensures
        effect_views(r@) == Seq::<EffectView<C>>::empty(),
{
    let r: Vec<Effect<C>> = Vec::new();
    assert(effect_views(r@) =~= Seq::<EffectView<C>>::empty());
    r
}

/// The one effect.
pub fn one_effect<C>(effect: Effect<C>) -> (r: Vec<Effect<C>>)
    ensures
        effect_views(r@) == seq![effect@],
        r@ == seq![effect],
{
    let mut r: Vec<Effect<C>> = Vec::new();
    r.push(effect);
    assert(effect_views(r@) =~= seq![effect@]);
    assert(r@ =~= seq![effect]);
    r
}

/// The number of addresses at the IP address `ip`.
pub open spec fn addresses_at(addrs: Seq<AddressView>, ip: IpAddr) -> nat
    decreases addrs.len(),
{
    if addrs.len() == 0 {
        0
    } else {
        addresses_at(addrs.drop_last(), ip) + (if ip_key(addrs.last()) == Some(ip) {
            1nat
        } else {
            0nat
        })
    }
}

/// Whether the limiter counts the persistent addresses at each IP address.
pub open spec fn exemptions_match(addrs: Seq<AddressView>, persistent: Map<IpAddr, usize>) -> bool {
    forall|ip: IpAddr|
        {
            &&& #[trigger] persistent.contains_key(ip) == (addresses_at(addrs, ip) > 0)
            &&& persistent.contains_key(ip) ==> persistent[ip] == addresses_at(addrs, ip)
        }
}

/// No more addresses are at an IP address than there are.
pub proof fn lemma_addresses_at_bound(addrs: Seq<AddressView>, ip: IpAddr)
    ensures
        addresses_at(addrs, ip) <= addrs.len(),
    decreases addrs.len(),
{
    if addrs.len() > 0 {
        lemma_addresses_at_bound(addrs.drop_last(), ip);
    }
}

/// An address that is removed is at its IP address no longer.
pub proof fn lemma_addresses_at_remove(addrs: Seq<AddressView>, i: int, ip: IpAddr)
    requires
        0 <= i < addrs.len(),
    ensures
        addresses_at(addrs, ip) == addresses_at(addrs.remove(i), ip) + (if ip_key(addrs[i]) == Some(
            ip,
        ) {
            1nat
        } else {
            0nat
        }),
    decreases addrs.len(),
{
    if i == addrs.len() - 1 {
        assert(addrs.remove(i) =~= addrs.drop_last());
    } else {
        lemma_addresses_at_remove(addrs.drop_last(), i, ip);
        assert(addrs.remove(i).drop_last() =~= addrs.drop_last().remove(i));
        assert(addrs.remove(i).last() == addrs.last());
    }
}

/// A limiter that was made with the persistent addresses counts them at each IP
/// address.
pub proof fn law_new_limiter_counts_persistent_addresses(addrs: Seq<Multiaddr>)
    requires
        addrs.len() <= usize::MAX,
    ensures
        exemptions_match(addresses(addrs), peers_per_ip(addrs)),
    decreases addrs.len(),
{
    let views = addresses(addrs);
    if addrs.len() > 0 {
        law_new_limiter_counts_persistent_addresses(addrs.drop_last());
        assert(views.drop_last() =~= addresses(addrs.drop_last()));
        let rest = peers_per_ip(addrs.drop_last());
        let all = peers_per_ip(addrs);
        assert forall|ip: IpAddr|
            {
                &&& #[trigger] all.contains_key(ip) == (addresses_at(views, ip) > 0)
                &&& all.contains_key(ip) ==> all[ip] == addresses_at(views, ip)
            } by {
            lemma_addresses_at_bound(views.drop_last(), ip);
            assert(rest.contains_key(ip) == (addresses_at(views.drop_last(), ip) > 0));
        }
    }
}

/// The state after the peers in `ids` were each given an inbound slot where
/// they are owed one, and the work that follows.
pub open spec fn all_prioritized<E, C>(s: StateView<E, C>, ids: Seq<PeerId>) -> (
    StateView<E, C>,
    Seq<ActionView>,
)
    decreases ids.len(),
{
    if ids.len() == 0 {
        (s, Seq::empty())
    } else {
        let (before, actions) = all_prioritized(s, ids.drop_last());
        let (after, _, more) = before.prioritized(ids.last());
        (after, actions + more)
    }
}

/// The work of giving peers their scores.
pub open spec fn all_scored<E, C>(s: StateView<E, C>, changes: Seq<(PeerId, Score)>) -> Seq<ActionView>
    decreases changes.len(),
{
    if changes.len() == 0 {
        Seq::empty()
    } else {
        all_scored(s, changes.drop_last()) + s.score_work(changes.last().0, changes.last().1)
    }
}

/// The state after a new validator set, and the work that follows: the peers
/// whose type has changed get their scores, and then inbound slots where they
/// are owed one.
pub open spec fn validators_updated<E, C>(
    s: StateView<E, C>,
    ids: Seq<PeerId>,
    validators: Seq<ValidatorView>,
) -> (StateView<E, C>, Seq<ActionView>) {
    let (classified, changes) = s.with_validators(distinct(validators)).all_reclassified(ids);
    let (next, actions) = all_prioritized(
        classified,
        changes.map_values(|c: (PeerId, Score)| c.0),
    );
    (next, all_scored(classified, changes) + actions)
}

/// The state after the proof of a peer was found valid, and the work that
/// follows.
pub open spec fn proof_accepted<E, C>(s: StateView<E, C>, p: PeerId, key: Seq<u8>) -> (
    StateView<E, C>,
    Seq<ActionView>,
) {
    let (proved, score) = s.proved(p, key);
    let (next, _, actions) = proved.prioritized(p);
    let scored = match score {
        Some(x) => proved.score_work(p, x),
        None => Seq::empty(),
    };
    (next, scored + actions)
}

/// Classifying peers anew changes no persistent address.
pub proof fn lemma_reclassified_keeps_addresses<E, C>(s: StateView<E, C>, ids: Seq<PeerId>)
    ensures
        s.all_reclassified(ids).0.persistent_addrs == s.persistent_addrs,
    decreases ids.len(),
{
    if ids.len() > 0 {
        lemma_reclassified_keeps_addresses(s, ids.drop_last());
    }
}

/// Giving a peer an inbound slot changes no persistent address.
pub proof fn lemma_prioritized_keeps_addresses<E, C>(s: StateView<E, C>, p: PeerId)
    ensures
        s.prioritized(p).0.persistent_addrs == s.persistent_addrs,
{
}

/// Giving peers inbound slots changes no persistent address.
pub proof fn lemma_all_prioritized_keeps_addresses<E, C>(s: StateView<E, C>, ids: Seq<PeerId>)
    ensures
        all_prioritized(s, ids).0.persistent_addrs == s.persistent_addrs,
    decreases ids.len(),
{
    if ids.len() > 0 {
        lemma_all_prioritized_keeps_addresses(s, ids.drop_last());
        lemma_prioritized_keeps_addresses(all_prioritized(s, ids.drop_last()).0, ids.last());
    }
}

/// What is published on `channel` with `protocol`: nothing where the protocol
/// is not in use.
pub open spec fn published<C>(
    enabled: Enabled,
    protocol: PubSubProtocol,
    names: ChannelNames,
    channel: Channel,
    data: Seq<u8>,
) -> Seq<EffectView<C>> {
    if enabled.allows(protocol) {
        seq![EffectView::Publish(protocol, names.name(channel), data)]
    } else {
        Seq::empty()
    }
}

/// The state and the limiter after a control message, and the work that
/// follows. `ids` are the identified peers, in ascending order.
pub open spec fn controlled<E, C>(
    s: StateView<E, C>,
    limits: LimitsView,
    config: Config,
    enabled: Enabled,
    ids: Seq<PeerId>,
    msg: CtrlMsg,
) -> (StateView<E, C>, LimitsView, Seq<EffectView<C>>) {
    match msg {
        CtrlMsg::Publish(channel, data) => (
            s,
            limits,
            published(enabled, config.pubsub_protocol, config.channel_names, channel, data@),
        ),
        CtrlMsg::Broadcast(channel, data) => (
            s,
            limits,
            if channel == Channel::Sync && !config.enable_sync {
                Seq::empty()
            } else {
                published(
                    enabled,
                    PubSubProtocol::Broadcast,
                    config.channel_names,
                    channel,
                    data@,
                )
            },
        ),
        CtrlMsg::SyncRequest(peer, data) => (
            s,
            limits,
            if enabled.sync {
                seq![EffectView::SyncRequest(peer, data@)]
            } else {
                Seq::empty()
            },
        ),
        CtrlMsg::SyncReply(id, data) => if enabled.sync && s.sync_channels.contains_key(id) {
            (
                StateView { sync_channels: s.sync_channels.remove(id), ..s },
                limits,
                seq![EffectView::SyncResponse(s.sync_channels[id], data@)],
            )
        } else {
            (s, limits, Seq::empty())
        },
        CtrlMsg::UpdateValidatorSet(validators) => {
            let (next, actions) = validators_updated(s, ids, validator_views(validators@));
            (next, limits, state_work(actions))
        },
        CtrlMsg::ValidatorProofVerified { peer_id, result, public_key } => if result
            != ProofVerificationResult::Valid {
            (s, limits, seq![EffectView::Disconnect(peer_id)])
        } else {
            match public_key {
                Some(key) => {
                    let (next, actions) = proof_accepted(s, peer_id, key@);
                    (next, limits, state_work(actions))
                },
                None => (s, limits, Seq::empty()),
            }
        },
        CtrlMsg::DumpState => (s, limits, seq![EffectView::ReplyDump]),
        CtrlMsg::UpdatePersistentPeers(PersistentPeersOp::Add(addr)) => {
            let (next, added, actions) = s.persistent_added(addr@);
            if added {
                (
                    next,
                    match ip_key(addr@) {
                        Some(ip) => limits.with_persistent(ip),
                        None => limits,
                    },
                    state_work(actions).push(EffectView::ReplyPersistentPeers(None)),
                )
            } else {
                (
                    s,
                    limits,
                    seq![
                        EffectView::ReplyPersistentPeers(
                            Some(PersistentPeerError::AlreadyExists.text()),
                        ),
                    ],
                )
            }
        },
        CtrlMsg::UpdatePersistentPeers(PersistentPeersOp::Remove(addr)) => if s.persistent_addrs.contains(
            addr@,
        ) {
            let (next, actions) = s.persistent_removed(
                choose|i: int| is_first(s.persistent_addrs, addr@, i),
            );
            (
                next,
                match ip_key(addr@) {
                    Some(ip) => limits.without_persistent(ip),
                    None => limits,
                },
                state_work(actions).push(EffectView::ReplyPersistentPeers(None)),
            )
        } else {
            (
                s,
                limits,
                seq![EffectView::ReplyPersistentPeers(Some(PersistentPeerError::NotFound.text()))],
            )
        },
        CtrlMsg::Shutdown => (s, limits, Seq::empty()),
    }
}

/// Publish a message, where the protocol is in use.
fn publish_message<C>(
    enabled: Enabled,
    protocol: PubSubProtocol,
    channel: Channel,
    names: &ChannelNames,
    data: Vec<u8>,
) -> (r: Vec<Effect<C>>)
    ensures
        effect_views(r@) == published::<C>(enabled, protocol, *names, channel, data@),
{
    match publish(enabled, protocol, channel, names, data) {
        Ok(p) => one_effect(Effect::Publish(p)),
        Err(_) => no_effects(),
    }
}

/// Give the peers whose type has changed their scores, and then inbound slots
/// where they are owed one.
fn apply_changes<E, C>(state: &mut State<E, C>, changed: &Vec<(PeerId, Score)>) -> (r: Vec<Action>)
    requires
        old(state).wf(),
    ensures
        final(state).wf(),
        ({
            let (next, actions) = all_prioritized(
                old(state)@,
                changed@.map_values(|c: (PeerId, Score)| c.0),
            );
            final(state)@ == next && work(r@) == all_scored(old(state)@, changed@) + actions
        }),
{
    let ghost start = state@;
    let ghost ids = changed@.map_values(|c: (PeerId, Score)| c.0);
    let mut actions: Vec<Action> = Vec::new();
    let mut i: usize = 0;
    assert(work(actions@) =~= Seq::<ActionView>::empty());
    assert(changed@.subrange(0, 0) =~= Seq::<(PeerId, Score)>::empty());
    while i < changed.len()
        invariant
            state.wf(),
            state@ == start,
            i <= changed@.len(),
            work(actions@) == all_scored(start, changed@.subrange(0, i as int)),
        decreases changed@.len() - i,
    {
        proof {
            assert(changed@.subrange(0, i + 1).drop_last() =~= changed@.subrange(0, i as int));
            assert(changed@.subrange(0, i + 1).last() == changed@[i as int]);
        }
        let scored = state.set_peer_score(changed[i].0, changed[i].1);
        append_work(&mut actions, scored);
        i = i + 1;
    }
    assert(changed@.subrange(0, i as int) =~= changed@);
    let ghost scores = work(actions@);
    let mut k: usize = 0;
    assert(ids.subrange(0, 0) =~= Seq::<PeerId>::empty());
    assert(work(actions@) =~= scores + all_prioritized(start, ids.subrange(0, 0)).1);
    while k < changed.len()
        invariant
            state.wf(),
            k <= changed@.len(),
            ids == changed@.map_values(|c: (PeerId, Score)| c.0),
            state@ == all_prioritized(start, ids.subrange(0, k as int)).0,
            work(actions@) == scores + all_prioritized(start, ids.subrange(0, k as int)).1,
        decreases changed@.len() - k,
    {
        proof {
            assert(ids.subrange(0, k + 1).drop_last() =~= ids.subrange(0, k as int));
            assert(ids.subrange(0, k + 1).last() == changed@[k as int].0);
        }
        let (_, moved) = state.try_prioritize_peer(changed[k].0);
        append_work(&mut actions, moved);
        assert(work(actions@) =~= scores + all_prioritized(start, ids.subrange(0, k + 1)).1);
        k = k + 1;
    }
    assert(ids.subrange(0, k as int) =~= ids);
    actions
}

/// Take in a new validator set.
fn update_validators<E, C>(state: &mut State<E, C>, validators: Vec<ValidatorInfo>) -> (r: Vec<Effect<C>>)
    requires
        old(state).wf(),
    ensures
        final(state).wf(),
        final(state)@.persistent_addrs == old(state)@.persistent_addrs,
        ({
            let (next, actions) = validators_updated(
                old(state)@,
                old(state).peer_info.keys(),
                validator_views(validators@),
            );
            final(state)@ == next && effect_views(r@) == state_work::<C>(actions)
        }),
{
    let ghost start = state@;
    let ghost ids = state.peer_info.keys();
    let changed = state.process_validator_set_update(validators);
    proof {
        let updated = start.with_validators(distinct(validator_views(validators@)));
        lemma_reclassified_keeps_addresses(updated, ids);
        lemma_all_prioritized_keeps_addresses(
            state@,
            changed@.map_values(|c: (PeerId, Score)| c.0),
        );
    }
    let actions = apply_changes(state, &changed);
    let mut effects = no_effects();
    append_state_work(&mut effects, actions);
    assert(effect_views(effects@) =~= state_work::<C>(work(actions@)));
    effects
}

/// Take in that the proof of a peer was found valid.
fn accept_proof<E, C>(state: &mut State<E, C>, peer_id: PeerId, key: Vec<u8>) -> (r: Vec<Effect<C>>)
    requires
        old(state).wf(),
    ensures
        final(state).wf(),
        final(state)@.persistent_addrs == old(state)@.persistent_addrs,
        ({
            let (next, actions) = proof_accepted(old(state)@, peer_id, key@);
            final(state)@ == next && effect_views(r@) == state_work::<C>(actions)
        }),
{
    let ghost start = state@;
    let mut actions: Vec<Action> = Vec::new();
    assert(work(actions@) =~= Seq::<ActionView>::empty());
    if let Some(score) = state.record_verified_proof(&peer_id, key) {
        let scored = state.set_peer_score(peer_id, score);
        append_work(&mut actions, scored);
        assert(work(actions@) =~= state@.score_work(peer_id, score));
    }
    assert(state@.persistent_addrs == start.persistent_addrs);
    proof {
        lemma_prioritized_keeps_addresses(state@, peer_id);
    }
    let (_, moved) = state.try_prioritize_peer(peer_id);
    append_work(&mut actions, moved);
    let mut effects = no_effects();
    append_state_work(&mut effects, actions);
    assert(effect_views(effects@) =~= state_work::<C>(work(actions@)));
    effects
}

/// Add a persistent peer, and count it at its IP address.
fn add_persistent<E, C>(state: &mut State<E, C>, limits: &mut IpLimits, addr: Multiaddr) -> (r: Vec<
    Effect<C>,
>)
    requires
        old(state).wf(),
        old(limits).wf(),
        exemptions_match(old(state)@.persistent_addrs, old(limits)@.persistent),
    ensures
        final(state).wf(),
        final(limits).wf(),
        exemptions_match(final(state)@.persistent_addrs, final(limits)@.persistent),
        ({
            let (next, added, actions) = old(state)@.persistent_added(addr@);
            if added {
                &&& final(state)@ == next
                &&& final(limits)@ == (match ip_key(addr@) {
                    Some(ip) => old(limits)@.with_persistent(ip),
                    None => old(limits)@,
                })
                &&& effect_views(r@) == state_work::<C>(actions).push(
                    EffectView::ReplyPersistentPeers(None),
                )
            } else {
                &&& final(state)@ == old(state)@
                &&& final(limits)@ == old(limits)@
                &&& effect_views(r@) == seq![
                    EffectView::<C>::ReplyPersistentPeers(
                        Some(PersistentPeerError::AlreadyExists.text()),
                    ),
                ]
            }
        }),
{
    let ghost start = state@;
    let ghost before = limits@;
    let ip = extract_ip(&addr);
    let (result, actions) = state.add_persistent_peer(addr);
    let mut effects = no_effects();
    append_state_work(&mut effects, actions);
    if result.is_ok() {
        proof {
            lemma_persistent_added(start, addr@);
            assert(state@.persistent_addrs =~= start.persistent_addrs.push(addr@));
            assert(state@.persistent_addrs.drop_last() =~= start.persistent_addrs);
            assert(state@.persistent_addrs.len() == state.persistent_peer_addrs@.len());
        }
        let count: usize = state.persistent_peer_addrs.len();
        assert(start.persistent_addrs.len() < count);
        if let Some(ip) = ip {
            proof {
                lemma_addresses_at_bound(start.persistent_addrs, ip);
                if before.persistent.contains_key(ip) {
                    assert(before.persistent[ip] == addresses_at(start.persistent_addrs, ip));
                }
            }
            limits.add_persistent_ip(ip);
        }
        proof {
            let addrs = state@.persistent_addrs;
            let counts = limits@.persistent;
            assert forall|q: IpAddr|
                {
                    &&& #[trigger] counts.contains_key(q) == (addresses_at(addrs, q) > 0)
                    &&& counts.contains_key(q) ==> counts[q] == addresses_at(addrs, q)
                } by {
                lemma_addresses_at_bound(start.persistent_addrs, q);
                assert(before.persistent.contains_key(q) == (addresses_at(start.persistent_addrs, q)
                    > 0));
            }
        }
    }
    append_effect(&mut effects, Effect::ReplyPersistentPeers(result));
    proof {
        let (next, added, listed) = start.persistent_added(addr@);
        if added {
            assert(effect_views(effects@) =~= state_work::<C>(listed).push(
                EffectView::ReplyPersistentPeers(None),
            ));
        } else {
            assert(effect_views(effects@) =~= seq![
                EffectView::<C>::ReplyPersistentPeers(
                    Some(PersistentPeerError::AlreadyExists.text()),
                ),
            ]);
        }
    }
    effects
}

/// Adding a persistent peer puts its address behind the others.
proof fn lemma_persistent_added<E, C>(s: StateView<E, C>, addr: AddressView)
    ensures
        s.persistent_added(addr).1 ==> s.persistent_added(addr).0.persistent_addrs
            == s.persistent_addrs.push(addr),
{
}

/// Remove a persistent peer, and no longer count it at its IP address.
fn remove_persistent<E, C>(state: &mut State<E, C>, limits: &mut IpLimits, addr: Multiaddr) -> (r: Vec<
    Effect<C>,
>)
    requires
        old(state).wf(),
        old(limits).wf(),
        exemptions_match(old(state)@.persistent_addrs, old(limits)@.persistent),
    ensures
        final(state).wf(),
        final(limits).wf(),
        exemptions_match(final(state)@.persistent_addrs, final(limits)@.persistent),
        if old(state)@.persistent_addrs.contains(addr@) {
            let (next, actions) = old(state)@.persistent_removed(
                choose|i: int| is_first(old(state)@.persistent_addrs, addr@, i),
            );
            &&& final(state)@ == next
            &&& final(limits)@ == (match ip_key(addr@) {
                Some(ip) => old(limits)@.without_persistent(ip),
                None => old(limits)@,
            })
            &&& effect_views(r@) == state_work::<C>(actions).push(
                EffectView::ReplyPersistentPeers(None),
            )
        } else {
            &&& final(state)@ == old(state)@
            &&& final(limits)@ == old(limits)@
            &&& effect_views(r@) == seq![
                EffectView::<C>::ReplyPersistentPeers(Some(PersistentPeerError::NotFound.text())),
            ]
        },
{
    let ghost start = state@;
    let ghost before = limits@;
    let ip = extract_ip(&addr);
    let (result, actions) = state.remove_persistent_peer(addr);
    let mut effects = no_effects();
    assert(result is Err ==> work(actions@) =~= Seq::<ActionView>::empty());
    let ghost listed = work(actions@);
    append_state_work(&mut effects, actions);
    let ghost at = choose|i: int| is_first(start.persistent_addrs, addr@, i);
    if result.is_ok() {
        proof {
            let i = choose|i: int| #[trigger]
                is_first(start.persistent_addrs, addr@, i) && (state@, listed)
                    == start.persistent_removed(i);
            assert(is_first(start.persistent_addrs, addr@, at));
            assert(i == at);
            assert(state@.persistent_addrs == start.persistent_addrs.remove(at));
        }
        if let Some(ip) = ip {
            limits.remove_persistent_ip(ip);
        }
        proof {
            let addrs = state@.persistent_addrs;
            let counts = limits@.persistent;
            assert forall|q: IpAddr|
                {
                    &&& #[trigger] counts.contains_key(q) == (addresses_at(addrs, q) > 0)
                    &&& counts.contains_key(q) ==> counts[q] == addresses_at(addrs, q)
                } by {
                lemma_addresses_at_remove(start.persistent_addrs, at, q);
                assert(before.persistent.contains_key(q) == (addresses_at(start.persistent_addrs, q)
                    > 0));
            }
        }
    }
    append_effect(&mut effects, Effect::ReplyPersistentPeers(result));
    proof {
        if start.persistent_addrs.contains(addr@) {
            assert(effect_views(effects@) =~= state_work::<C>(listed).push(
                EffectView::ReplyPersistentPeers(None),
            ));
        } else {
            assert(effect_views(effects@) =~= seq![
                EffectView::<C>::ReplyPersistentPeers(Some(PersistentPeerError::NotFound.text())),
            ]);
        }
    }
    effects
}

/// What follows from a control message. The service ends with a shutdown.
pub fn handle_ctrl_msg<E, C>(
    state: &mut State<E, C>,
    limits: &mut IpLimits,
    config: &Config,
    enabled: Enabled,
    msg: CtrlMsg,
) -> (r: (Flow, Vec<Effect<C>>))
    requires
        old(state).wf(),
        old(limits).wf(),
        exemptions_match(old(state)@.persistent_addrs, old(limits)@.persistent),
    ensures
        final(state).wf(),
        final(limits).wf(),
        exemptions_match(final(state)@.persistent_addrs, final(limits)@.persistent),
        (final(state)@, final(limits)@, effect_views(r.1@)) == controlled(
            old(state)@,
            old(limits)@,
            *config,
            enabled,
            old(state).peer_info.keys(),
            msg,
        ),
        msg is DumpState ==> (r.1@[0] matches Effect::ReplyDump(d) && old(state).is_dump(d)),
        r.0 == if msg is Shutdown {
            Flow::Break
        } else {
            Flow::Continue
        },
{
    let ghost start = state@;
    let ghost before = limits@;
    let ghost ids = state.peer_info.keys();
    let ghost want = controlled(start, before, *config, enabled, ids, msg);
    let effects = match msg {
        CtrlMsg::Publish(channel, data) => publish_message(
            enabled,
            config.pubsub_protocol,
            channel,
            &config.channel_names,
            data,
        ),
        CtrlMsg::Broadcast(channel, data) => {
            if channel == Channel::Sync && !config.enable_sync {
                no_effects()
            } else {
                publish_message(
                    enabled,
                    PubSubProtocol::Broadcast,
                    channel,
                    &config.channel_names,
                    data,
                )
            }
        },
        CtrlMsg::SyncRequest(peer, data) => {
            if enabled.sync {
                one_effect(Effect::SyncRequest(peer, data))
            } else {
                no_effects()
            }
        },
        CtrlMsg::SyncReply(id, data) => {
            if !enabled.sync {
                no_effects()
            } else {
                match state.sync_channels.remove(&id) {
                    Some(channel) => one_effect(Effect::SyncResponse(channel, data)),
                    None => {
                        assert(state@.sync_channels =~= start.sync_channels);
                        no_effects()
                    },
                }
            }
        },
        CtrlMsg::UpdateValidatorSet(validators) => update_validators(state, validators),
        CtrlMsg::ValidatorProofVerified { peer_id, result, public_key } => {
            if !result.is_valid() {
                one_effect(Effect::Disconnect(peer_id))
            } else {
                match public_key {
                    Some(key) => accept_proof(state, peer_id, key),
                    None => no_effects(),
                }
            }
        },
        CtrlMsg::DumpState => one_effect(Effect::ReplyDump(state.dump())),
        CtrlMsg::UpdatePersistentPeers(PersistentPeersOp::Add(addr)) => add_persistent(
            state,
            limits,
            addr,
        ),
        CtrlMsg::UpdatePersistentPeers(PersistentPeersOp::Remove(addr)) => remove_persistent(
            state,
            limits,
            addr,
        ),
        CtrlMsg::Shutdown => {
            return (Flow::Break, no_effects());
        },
    };
    assert(effect_views(effects@) =~= want.2);
    assert(state@ == want.0);
    (Flow::Continue, effects)
}

/// The topics that a service subscribes to when it starts.
pub struct Subscription {
    pub protocol: PubSubProtocol,
    pub topics: Vec<String>,
}

/// What a service subscribes to when it starts: the channels of consensus with
/// the configured protocol, then that of sync by broadcast, as far as these are
/// enabled. An error where a protocol is not in use; the service then ends.
pub fn startup_subscriptions(config: &Config, enabled: Enabled) -> (r: Result<
    Vec<Subscription>,
    NotEnabled,
>)
    ensures
        match r {
            Ok(subs) => {
                let consensus = seq![
                    (
                        config.pubsub_protocol,
                        topics(
                            config.channel_names,
                            seq![Channel::Consensus, Channel::Liveness, Channel::ProposalParts],
                        ),
                    ),
                ];
                let sync = seq![
                    (PubSubProtocol::Broadcast, topics(config.channel_names, seq![Channel::Sync])),
                ];
                &&& config.enable_consensus ==> enabled.allows(config.pubsub_protocol)
                &&& config.enable_sync ==> enabled.broadcast
                &&& subs@.map_values(|s: Subscription| (s.protocol, texts(s.topics@))) == (
                if config.enable_consensus {
                    consensus
                } else {
                    Seq::empty()
                }) + (if config.enable_sync {
                    sync
                } else {
                    Seq::empty()
                })
            },
            Err(e) => if config.enable_consensus && !enabled.allows(config.pubsub_protocol) {
                e == NotEnabled(config.pubsub_protocol)
            } else {
                config.enable_sync && !enabled.broadcast && e == NotEnabled(
                    PubSubProtocol::Broadcast,
                )
            },
        },
{
    let mut subs: Vec<Subscription> = Vec::new();
    if config.enable_consensus {
        match subscribe(
            enabled,
            config.pubsub_protocol,
            &Channel::consensus(),
            &config.channel_names,
        ) {
            Ok(topics) => {
                subs.push(Subscription { protocol: config.pubsub_protocol, topics });
            },
            Err(e) => {
                return Err(e);
            },
        }
    }
    if config.enable_sync {
        let channels = vec![Channel::Sync];
        assert(channels@ =~= seq![Channel::Sync]);
        match subscribe(enabled, PubSubProtocol::Broadcast, &channels, &config.channel_names) {
            Ok(topics) => {
                subs.push(Subscription { protocol: PubSubProtocol::Broadcast, topics });
            },
            Err(e) => {
                return Err(e);
            },
        }
    }
    proof {
        let consensus = seq![
            (
                config.pubsub_protocol,
                topics(
                    config.channel_names,
                    seq![Channel::Consensus, Channel::Liveness, Channel::ProposalParts],
                ),
            ),
        ];
        let sync = seq![
            (PubSubProtocol::Broadcast, topics(config.channel_names, seq![Channel::Sync])),
        ];
        assert(subs@.map_values(|s: Subscription| (s.protocol, texts(s.topics@))) =~= (
        if config.enable_consensus {
            consensus
        } else {
            Seq::empty()
        }) + (if config.enable_sync {
            sync
        } else {
            Seq::empty()
        }));
    }
    Ok(subs)
}

/// Counts the periodic work of the service, so that every fifth time a
/// description of the peers is logged.
#[derive(Clone, Copy, Debug, PartialEq, Eq, Structural)]
pub struct PeriodicTicks {
    pub count: u32,
}

impl PeriodicTicks {
    /// Count once more; whether a description of the peers is logged.
    pub fn tick(&mut self) -> (r: bool)
        ensures
            final(self).count == (old(self).count + 1) % 0x1_0000_0000,
            r == (final(self).count % 5 == 0),
    {
        self.count = self.count.wrapping_add(1);
        self.count % 5 == 0
    }
}

} // verus!
