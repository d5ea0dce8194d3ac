//! What the service does for each control message and for each event of the swarm,
//! call by call.

use vstd::prelude::*;
use vstd::string::*;

use crate::discovery::state::{
    addresses, ActionView as DiscoveryActionView, AddressView, ConnectionId, DialInfo, Discovery,
    NetworkEvent,
};
use crate::engine::event::{OutboundFailureReason, PeerId};
use crate::engine::network::PersistentPeersOp;
use crate::network::channel::{Channel, ChannelNames};
use crate::network::config::{Config, PubSubProtocol};
use crate::network::ip_limits::{ip_key, Behaviour as IpLimits};
use crate::network::multiaddr::Multiaddr;
use crate::network::peer::{Score, ValidatorInfo};
use crate::network::peers::PersistentPeerError;
use crate::network::pubsub::{publish, subscribe, Enabled, NotEnabled, Publication};
use crate::network::service::{
    after_emit, all_prioritized, all_scored, effect_views, handle_ctrl_msg, startup_subscriptions,
    state_work, CtrlMsg, Effect, EffectView, EventView, Flow, Identified, PeriodicTicks,
    Subscription,
};
use crate::network::state::{work, Action, ActionView, State, StateView};
use crate::network::swarm::{
    handle_swarm_event, BroadcastEvent, GossipSubEvent, IdentifyInfo, SwarmEvent, SyncEvent,
};
use crate::network::validator_proof::behaviour::{Event as ProofEvent, ProofVerificationResult};
use crate::votekeeper::keeper::lemma_push_contains;

verus! {

/// Whether `protocol` is in use.
pub open spec fn in_use(enabled: Enabled, protocol: PubSubProtocol) -> bool {
    (protocol == PubSubProtocol::GossipSub && enabled.gossipsub) || (protocol
        == PubSubProtocol::Broadcast && enabled.broadcast)
}

/// A message is published on its channel, as it is, with the configured protocol,
/// exactly where that is in use; a broadcast with the broadcast protocol, and on
/// the channel of sync only where sync is on. Nothing else happens.
pub proof fn law_messages_are_published<E, C>(
    state: &mut State<E, C>,
    limits: &mut IpLimits,
    config: &Config,
    enabled: Enabled,
    channel: Channel,
    data: Vec<u8>,
    broadcast: bool,
    r: (Flow, Vec<Effect<C>>),
)
    requires
        call_ensures(
            handle_ctrl_msg::<E, C>,
            (
                state,
                limits,
                config,
                enabled,
                if broadcast {
                    CtrlMsg::Broadcast(channel, data)
                } else {
                    CtrlMsg::Publish(channel, data)
                },
            ),
            r,
        ),
    ensures
        ({
            let protocol = if broadcast {
                PubSubProtocol::Broadcast
            } else {
                config.pubsub_protocol
            };
            let goes_out = in_use(enabled, protocol) && !(broadcast && channel == Channel::Sync
                && !config.enable_sync);
            let topic = match channel {
                Channel::Consensus => config.channel_names.consensus@,
                Channel::Liveness => config.channel_names.liveness@,
                Channel::ProposalParts => config.channel_names.proposal_parts@,
                Channel::Sync => config.channel_names.sync@,
            };
            &&& r.0 == Flow::Continue
            &&& goes_out ==> r.1@.len() == 1 && r.1@[0]@ == EffectView::<C>::Publish(
                protocol,
                topic,
                data@,
            )
            &&& !goes_out ==> r.1@.len() == 0
            &&& final(state)@ == old(state)@ && final(limits)@ == old(limits)@
        }),
{
    lemma_views(r.1@);
}

proof fn lemma_views<C>(effects: Seq<Effect<C>>)
    ensures
        effect_views(effects).len() == effects.len(),
        forall|i: int| 0 <= i < effects.len() ==> #[trigger] effects[i]@ == effect_views(effects)[i],
{
}

/// A request goes to its peer where sync is on, and an answer out through what its
/// request came with; then the request is no longer to be answered. Other requests
/// stay.
pub proof fn law_sync_messages_go_out<E, C>(
    state: &mut State<E, C>,
    limits: &mut IpLimits,
    config: &Config,
    enabled: Enabled,
    msg: CtrlMsg,
    r: (Flow, Vec<Effect<C>>),
    other: u64,
)
    requires
        call_ensures(handle_ctrl_msg::<E, C>, (state, limits, config, enabled, msg), r),
        msg is SyncRequest || msg is SyncReply,
    ensures
        r.0 == Flow::Continue,
        msg matches CtrlMsg::SyncRequest(peer, data) ==> {
            &&& enabled.sync ==> r.1@.len() == 1 && r.1@[0]@ == EffectView::<C>::SyncRequest(
                peer,
                data@,
            )
            &&& !enabled.sync ==> r.1@.len() == 0
            &&& final(state)@ == old(state)@
        },
        msg matches CtrlMsg::SyncReply(id, data) ==> {
            let due = enabled.sync && old(state)@.sync_channels.contains_key(id);
            &&& due ==> r.1@.len() == 1 && r.1@[0]@ == EffectView::SyncResponse(
                old(state)@.sync_channels[id],
                data@,
            ) && !final(state)@.sync_channels.contains_key(id)
            &&& !due ==> r.1@.len() == 0 && final(state)@ == old(state)@
            &&& other != id ==> final(state)@.sync_channels.contains_key(other) == old(
                state,
            )@.sync_channels.contains_key(other)
        },
        final(limits)@ == old(limits)@,
        final(state)@.peers == old(state)@.peers,
{
    lemma_views(r.1@);
}

proof fn lemma_prioritized_roles<E, C>(s: StateView<E, C>, p: PeerId, q: PeerId)
    ensures
        ({
            let t = s.prioritized(p).0;
            &&& t.peers.contains_key(q) == s.peers.contains_key(q)
            &&& s.peers.contains_key(q) ==> t.peers[q].peer_type == s.peers[q].peer_type
                && t.peers[q].score == s.peers[q].score && t.peers[q].consensus_public_key
                == s.peers[q].consensus_public_key && t.peers[q].consensus_address
                == s.peers[q].consensus_address
            &&& t.validators == s.validators && t.pending == s.pending && t.local_node == s.local_node
            &&& forall|i: int|
                0 <= i < s.prioritized(p).2.len() ==> !(#[trigger] s.prioritized(p).2[i] is SetScore)
        }),
{
}

proof fn lemma_all_prioritized_roles<E, C>(s: StateView<E, C>, ids: Seq<PeerId>, q: PeerId)
    ensures
        ({
            let t = all_prioritized(s, ids).0;
            &&& t.peers.contains_key(q) == s.peers.contains_key(q)
            &&& s.peers.contains_key(q) ==> t.peers[q].peer_type == s.peers[q].peer_type
                && t.peers[q].score == s.peers[q].score && t.peers[q].consensus_public_key
                == s.peers[q].consensus_public_key && t.peers[q].consensus_address
                == s.peers[q].consensus_address
            &&& t.validators == s.validators && t.pending == s.pending && t.local_node == s.local_node
            &&& forall|i: int|
                0 <= i < all_prioritized(s, ids).1.len() ==> !(#[trigger] all_prioritized(s, ids).1[i]
                    is SetScore)
        }),
    decreases ids.len(),
{
    if ids.len() > 0 {
        let (before, actions) = all_prioritized(s, ids.drop_last());
        lemma_all_prioritized_roles(s, ids.drop_last(), q);
        lemma_prioritized_roles(before, ids.last(), q);
        let more = before.prioritized(ids.last()).2;
        assert forall|i: int| 0 <= i < (actions + more).len() implies !(#[trigger] (actions + more)[i]
            is SetScore) by {
            if i >= actions.len() {
                assert((actions + more)[i] == more[i - actions.len()]);
            }
        }
    }
}

proof fn lemma_all_scored<E, C>(s: StateView<E, C>, changes: Seq<(PeerId, Score)>, p: PeerId, x: Score)
    ensures
        all_scored(s, changes).contains(ActionView::SetScore(p, x)) == (s.gossipsub && changes.contains(
            (p, x),
        )),
    decreases changes.len(),
{
    if changes.len() > 0 {
        let rest = changes.drop_last();
        lemma_all_scored(s, rest, p, x);
        lemma_push_contains(rest, changes.last(), (p, x));
        assert(rest.push(changes.last()) =~= changes);
        let a = all_scored(s, rest);
        let b = s.score_work(changes.last().0, changes.last().1);
        if s.gossipsub {
            let one = ActionView::SetScore(changes.last().0, changes.last().1);
            assert(a + b =~= a.push(one));
            lemma_push_contains(a, one, ActionView::SetScore(p, x));
        } else {
            assert(a + b =~= a);
        }
    }
}

/// A new validator set classifies the peers as the state does. Those whose type
/// changes, and no others, get their new scores with gossipsub, where that is in
/// use, and then slots where they are owed one.
pub proof fn law_validator_set_is_applied<E, C>(
    state: &mut State<E, C>,
    other: &mut State<E, C>,
    limits: &mut IpLimits,
    config: &Config,
    enabled: Enabled,
    validators: Vec<ValidatorInfo>,
    r: (Flow, Vec<Effect<C>>),
    changed: Vec<(PeerId, Score)>,
    p: PeerId,
    x: Score,
)
    requires
        call_ensures(
            handle_ctrl_msg::<E, C>,
            (state, limits, config, enabled, CtrlMsg::UpdateValidatorSet(validators)),
            r,
        ),
        *old(other) == *old(state),
        call_ensures(State::<E, C>::process_validator_set_update, (other, validators), changed),
    ensures
        r.0 == Flow::Continue,
        ({
            let s = final(state)@;
            let t = final(other)@;
            &&& s.validators == t.validators
            &&& s.local_node == t.local_node
            &&& s.peers.contains_key(p) == t.peers.contains_key(p)
            &&& t.peers.contains_key(p) ==> s.peers[p].peer_type == t.peers[p].peer_type
                && s.peers[p].score == t.peers[p].score && s.peers[p].consensus_address
                == t.peers[p].consensus_address
        }),
        effect_views(r.1@).contains(EffectView::<C>::State(ActionView::SetScore(p, x))) == (old(
            state,
        )@.gossipsub && changed@.contains((p, x))),
        final(limits)@ == old(limits)@,
{
    let ids = changed@.map_values(|c: (PeerId, Score)| c.0);
    let classified = final(other)@;
    lemma_all_prioritized_roles(classified, ids, p);
    lemma_all_scored(classified, changed@, p, x);
    lemma_gossipsub(
        old(state)@.with_validators(
            crate::network::state::distinct(
                crate::network::peer::validator_views(validators@),
            ),
        ),
        old(state).peer_info.keys(),
    );
    let a = all_scored(classified, changed@);
    let b = all_prioritized(classified, ids).1;
    let w = a + b;
    let views = effect_views(r.1@);
    assert(views == state_work::<C>(w));
    let one = ActionView::SetScore(p, x);
    assert(views.contains(EffectView::<C>::State(one)) == w.contains(one)) by {
        if w.contains(one) {
            let i = choose|i: int| 0 <= i < w.len() && w[i] == one;
            assert(views[i] == EffectView::<C>::State(one));
        }
        if views.contains(EffectView::<C>::State(one)) {
            let i = choose|i: int| 0 <= i < views.len() && views[i] == EffectView::<C>::State(one);
            assert(w[i] == one);
        }
    }
    assert(w.contains(one) == a.contains(one)) by {
        if a.contains(one) {
            let i = choose|i: int| 0 <= i < a.len() && a[i] == one;
            assert(w[i] == one);
        }
        if w.contains(one) {
            let i = choose|i: int| 0 <= i < w.len() && w[i] == one;
            if i < a.len() {
                assert(a[i] == one);
            } else {
                assert(b[i - a.len()] == one);
            }
        }
    }
}

proof fn lemma_gossipsub<E, C>(s: StateView<E, C>, ids: Seq<PeerId>)
    ensures
        s.all_reclassified(ids).0.gossipsub == s.gossipsub,
    decreases ids.len(),
{
    if ids.len() > 0 {
        lemma_gossipsub(s, ids.drop_last());
    }
}

/// A peer whose proof is not valid is disconnected, and nothing else happens. A
/// valid proof is recorded as the state does, and the peer gets its new score with
/// gossipsub, where that is in use, exactly where its type changes.
pub proof fn law_verdict_is_applied<E, C>(
    state: &mut State<E, C>,
    other: &mut State<E, C>,
    limits: &mut IpLimits,
    config: &Config,
    enabled: Enabled,
    peer_id: PeerId,
    result: ProofVerificationResult,
    key: Vec<u8>,
    r: (Flow, Vec<Effect<C>>),
    score: Option<Score>,
    p: PeerId,
)
    requires
        call_ensures(
            handle_ctrl_msg::<E, C>,
            (
                state,
                limits,
                config,
                enabled,
                CtrlMsg::ValidatorProofVerified { peer_id, result, public_key: Some(key) },
            ),
            r,
        ),
        *old(other) == *old(state),
        call_ensures(State::<E, C>::record_verified_proof, (other, &peer_id, key), score),
    ensures
        r.0 == Flow::Continue,
        final(limits)@ == old(limits)@,
        result != ProofVerificationResult::Valid ==> r.1@.len() == 1 && r.1@[0]@ == EffectView::<
            C,
        >::Disconnect(peer_id) && final(state)@ == old(state)@,
        result == ProofVerificationResult::Valid ==> {
            let s = final(state)@;
            let t = final(other)@;
            &&& s.pending == t.pending
            &&& s.peers.contains_key(p) == t.peers.contains_key(p)
            &&& t.peers.contains_key(p) ==> s.peers[p].peer_type == t.peers[p].peer_type
                && s.peers[p].score == t.peers[p].score && s.peers[p].consensus_public_key
                == t.peers[p].consensus_public_key && s.peers[p].consensus_address
                == t.peers[p].consensus_address
            &&& score matches Some(x) ==> (old(state)@.gossipsub ==> r.1@.len() > 0 && r.1@[0]@
                == EffectView::<C>::State(ActionView::SetScore(peer_id, x)))
            &&& forall|i: int|
                0 <= i < r.1@.len() ==> !(effect_views(r.1@)[i] is Disconnect) && !(#[trigger] effect_views(
                    r.1@,
                )[i] is Emit)
        },
{
    lemma_views(r.1@);
    if result == ProofVerificationResult::Valid {
        let t = final(other)@;
        lemma_prioritized_roles(t, peer_id, p);
        if let Some(x) = score {
            if old(state)@.gossipsub {
                let w = t.score_work(peer_id, x) + t.prioritized(peer_id).2;
                assert(w[0] == ActionView::SetScore(peer_id, x));
                assert(effect_views(r.1@)[0] == EffectView::<C>::State(w[0]));
            }
        }
    }
}

/// Adding a persistent peer is done as the state does, and the reply says what came
/// of it, last. Its IP address is exempt from the limits once more exactly where it
/// was added.
pub proof fn law_persistent_peer_is_exempt_once_added<E, C>(
    state: &mut State<E, C>,
    other: &mut State<E, C>,
    limits: &mut IpLimits,
    config: &Config,
    enabled: Enabled,
    addr: Multiaddr,
    r: (Flow, Vec<Effect<C>>),
    direct: (Result<(), PersistentPeerError>, Vec<Action>),
)
    requires
        call_ensures(
            handle_ctrl_msg::<E, C>,
            (
                state,
                limits,
                config,
                enabled,
                CtrlMsg::UpdatePersistentPeers(PersistentPeersOp::Add(addr)),
            ),
            r,
        ),
        *old(other) == *old(state),
        call_ensures(State::<E, C>::add_persistent_peer, (other, addr), direct),
    ensures
        r.0 == Flow::Continue,
        final(state)@ == final(other)@,
        r.1@.len() == direct.1@.len() + 1,
        forall|i: int|
            0 <= i < direct.1@.len() ==> #[trigger] effect_views(r.1@)[i] == EffectView::<C>::State(
                work(direct.1@)[i],
            ),
        direct.0 is Ok ==> r.1@.last()@ == EffectView::<C>::ReplyPersistentPeers(None),
        direct.0 is Err ==> r.1@.last()@ == EffectView::<C>::ReplyPersistentPeers(
            Some("Persistent peer already exists"@),
        ),
        ({
            let before = old(limits)@.persistent;
            let after = final(limits)@.persistent;
            match ip_key(addr@) {
                Some(ip) if direct.0 is Ok => after.contains_key(ip) && (!before.contains_key(ip)
                    ==> after[ip] == 1) && (before.contains_key(ip) && before[ip] < usize::MAX
                    ==> after[ip] == before[ip] + 1) && after.remove(ip) =~= before.remove(ip),
                _ => after == before,
            }
        }),
{
    lemma_views(r.1@);
    let d = work(direct.1@);
    assert(d.len() == direct.1@.len());
    let n = r.1@.len() as int;
    assert(r.1@.last()@ == effect_views(r.1@)[n - 1]);
}

/// Removing a persistent peer replies that it was not found where it was none, and
/// then changes nothing. Otherwise the reply, last, is that it was done, and its IP
/// address is exempt from the limits once less.
pub proof fn law_exemption_ends_with_the_peer<E, C>(
    state: &mut State<E, C>,
    limits: &mut IpLimits,
    config: &Config,
    enabled: Enabled,
    addr: Multiaddr,
    r: (Flow, Vec<Effect<C>>),
)
    requires
        call_ensures(
            handle_ctrl_msg::<E, C>,
            (
                state,
                limits,
                config,
                enabled,
                CtrlMsg::UpdatePersistentPeers(PersistentPeersOp::Remove(addr)),
            ),
            r,
        ),
    ensures
        r.0 == Flow::Continue,
        r.1@.len() > 0,
        ({
            let found = old(state)@.persistent_addrs.contains(addr@);
            let before = old(limits)@.persistent;
            let after = final(limits)@.persistent;
            &&& !found ==> {
                &&& r.1@.len() == 1
                &&& r.1@[0]@ == EffectView::<C>::ReplyPersistentPeers(Some("Persistent peer not found"@))
                &&& final(state)@ == old(state)@ && final(limits)@ == old(limits)@
            }
            &&& found ==> {
                &&& r.1@.last()@ == EffectView::<C>::ReplyPersistentPeers(None)
                &&& final(state)@.persistent_addrs.len() + 1 == old(state)@.persistent_addrs.len()
                &&& match ip_key(addr@) {
                    Some(ip) => after.remove(ip) =~= before.remove(ip) && (before.contains_key(ip)
                        && before[ip] == 1 ==> !after.contains_key(ip)) && (before.contains_key(ip)
                        && before[ip] > 1 ==> after.contains_key(ip) && after[ip] == before[ip] - 1),
                    None => after == before,
                }
            }
        }),
{
    lemma_views(r.1@);
    let n = r.1@.len() as int;
    assert(r.1@.last()@ == effect_views(r.1@)[n - 1]);
    if old(state)@.persistent_addrs.contains(addr@) {
        let addrs = old(state)@.persistent_addrs;
        lemma_first_exists(addrs, addr@, 0);
        let i = choose|i: int| crate::network::membership::is_first(addrs, addr@, i);
        assert(crate::network::membership::is_first(addrs, addr@, i));
        lemma_removed_len(old(state)@, i);
    }
}

proof fn lemma_first_exists(addrs: Seq<AddressView>, addr: AddressView, i: int)
    requires
        0 <= i <= addrs.len(),
        addrs.contains(addr),
        forall|j: int| 0 <= j < i ==> addrs[j] != addr,
    ensures
        exists|k: int| crate::network::membership::is_first(addrs, addr, k),
    decreases addrs.len() - i,
{
    if i < addrs.len() && addrs[i] != addr {
        lemma_first_exists(addrs, addr, i + 1);
    } else if i < addrs.len() {
        assert(crate::network::membership::is_first(addrs, addr, i));
    } else {
        let k = choose|k: int| 0 <= k < addrs.len() && addrs[k] == addr;
        assert(addrs[k] != addr);
    }
}

proof fn lemma_removed_len<E, C>(s: StateView<E, C>, i: int)
    requires
        0 <= i < s.persistent_addrs.len(),
    ensures
        s.persistent_removed(i).0.persistent_addrs.len() + 1 == s.persistent_addrs.len(),
{
}

/// Whoever asks for what is known of the network gets it, and a shutdown ends the
/// service; nothing else does.
pub proof fn law_service_ends_with_shutdown<E, C>(
    state: &mut State<E, C>,
    limits: &mut IpLimits,
    config: &Config,
    enabled: Enabled,
    msg: CtrlMsg,
    r: (Flow, Vec<Effect<C>>),
)
    requires
        call_ensures(handle_ctrl_msg::<E, C>, (state, limits, config, enabled, msg), r),
    ensures
        r.0 == Flow::Break <==> msg is Shutdown,
        msg is Shutdown ==> r.1@.len() == 0 && final(state)@ == old(state)@,
        msg is DumpState ==> r.1@.len() == 1 && (r.1@[0] matches Effect::ReplyDump(d)
            && d.local_node@ == old(state)@.local_node && addresses(d.persistent_peer_addrs@) == old(
            state,
        )@.persistent_addrs) && final(state)@ == old(state)@,
{
    lemma_views(r.1@);
}

/// A new peer has the score of one that is not identified, from its first
/// connection on, where gossipsub is in use, and discovery takes in every
/// connection, and every dial that failed.
pub proof fn law_connections_reach_discovery<E, C>(
    state: &mut State<E, C>,
    config: &Config,
    event: SwarmEvent<E, C>,
    r: Vec<Effect<C>>,
)
    requires
        call_ensures(handle_swarm_event::<E, C>, (state, config, event), r),
        event is ConnectionEstablished || event is OutgoingConnectionError,
    ensures
        final(state)@ == old(state)@,
        r@.len() > 0,
        event matches SwarmEvent::ConnectionEstablished { peer, connection, num_established } ==> {
            let scored = num_established == 1 && old(state)@.gossipsub;
            &&& r@.last()@ == EffectView::<C>::HandleConnection(peer, connection)
            &&& r@.len() == if scored {
                2int
            } else {
                1
            }
            &&& scored ==> r@[0]@ == EffectView::<C>::State(
                ActionView::SetScore(peer, old(state)@.scores.unidentified),
            )
        },
        event matches SwarmEvent::OutgoingConnectionError { connection } ==> r@.len() == 1 && r@[0]@
            == EffectView::<C>::HandleFailedConnection(connection),
{
    lemma_views(r@);
    let n = r@.len() as int;
    assert(r@.last()@ == effect_views(r@)[n - 1]);
}

/// A closed connection is taken in as discovery does. The outbound peers are
/// repaired where discovery wants that, and the peer is to be forgotten, last,
/// exactly where it has no connection left; otherwise the metrics are updated.
pub proof fn law_closed_connection_is_taken_in<E, C>(
    state: &mut State<E, C>,
    config: &Config,
    peer: PeerId,
    connection: ConnectionId,
    num_established: u32,
    r: Vec<Effect<C>>,
)
    requires
        call_ensures(
            handle_swarm_event::<E, C>,
            (state, config, SwarmEvent::ConnectionClosed { peer, connection, num_established }),
            r,
        ),
    ensures
        ({
            let s = old(state)@;
            let t = final(state)@;
            let repair = s.discovery.outbound.contains_key(peer) && s.discovery.config.enabled;
            let n = r@.len() as int;
            &&& t.discovery == s.discovery.closed(peer, connection, num_established == 0)
            &&& t.peers == s.peers && t.persistent_ids == s.persistent_ids
            &&& n == if repair {
                3int
            } else {
                2
            }
            &&& r@[0]@ == EffectView::<C>::State(
                ActionView::Discovery(DiscoveryActionView::RemoveDialInProgress(connection)),
            )
            &&& repair ==> r@[1]@ == EffectView::<C>::RepairOutboundPeers
            &&& num_established == 0 ==> r@[n - 1]@ == EffectView::<C>::ForgetPeer(peer)
            &&& num_established > 0 ==> r@[n - 1]@ == EffectView::<C>::State(
                ActionView::Discovery(DiscoveryActionView::UpdateMetrics),
            )
        }),
{
    lemma_views(r@);
}

/// A peer with no connection left is forgotten by discovery and by the state, and
/// that it disconnected is reported, last and once.
pub proof fn law_gone_peer_is_reported<E, C>(
    state: &mut State<E, C>,
    other: &mut State<E, C>,
    config: &Config,
    peer: PeerId,
    r: Vec<Effect<C>>,
    left: Vec<Action>,
    i: int,
)
    requires
        call_ensures(handle_swarm_event::<E, C>, (state, config, SwarmEvent::PeerGone(peer)), r),
        old(other)@ == (StateView {
            discovery: old(state)@.discovery.forgotten(peer).0,
            ..old(state)@
        }),
        call_ensures(State::<E, C>::remove_peer, (other, &peer), left),
    ensures
        final(state)@ == final(other)@,
        r@.len() > 0,
        r@.last()@ == EffectView::<C>::Emit(EventView::PeerDisconnected(peer)),
        0 <= i < r@.len() - 1 ==> r@[i]@ is State,
{
    lemma_views(r@);
    let n = r@.len() as int;
    assert(r@.last()@ == effect_views(r@)[n - 1]);
    if 0 <= i < n - 1 {
        assert(r@[i]@ == effect_views(r@)[i]);
    }
}

/// A peer that speaks another protocol is not taken in. One that speaks that of
/// this node is taken in as discovery does, and then what is known of it is to be
/// updated, with what it said.
pub proof fn law_same_protocol_is_taken_in<E, C>(
    state: &mut State<E, C>,
    config: &Config,
    connection: ConnectionId,
    peer: PeerId,
    info: IdentifyInfo<E>,
    dial: DialInfo,
    r: Vec<Effect<C>>,
    i: int,
)
    requires
        call_ensures(
            handle_swarm_event::<E, C>,
            (state, config, SwarmEvent::IdentifyReceived { connection, peer, info, dial }),
            r,
        ),
    ensures
        info.protocol_version@ != config.protocol_names.consensus@ ==> r@.len() == 0 && final(state)@
            == old(state)@,
        info.protocol_version@ == config.protocol_names.consensus@ ==> {
            &&& r@.len() > 0
            &&& r@.last()@ matches EffectView::UpdatePeer(u) && u.peer == peer && u.connection
                == connection && u.moniker == info.moniker@ && u.listen_addrs == addresses(
                info.listen_addrs@,
            )
            &&& final(state)@.peers == old(state)@.peers
            &&& final(state)@.discovery == old(state)@.discovery.new_peer(
                connection,
                peer,
                addresses(info.listen_addrs@),
                info.signed_peer_record,
                crate::discovery::state::dialed_view(dial.dialed_addrs),
                dial.we_dialed,
            ).0
            &&& r@.last()@->UpdatePeer_0.already_connected == old(state)@.discovery.new_peer(
                connection,
                peer,
                addresses(info.listen_addrs@),
                info.signed_peer_record,
                crate::discovery::state::dialed_view(dial.dialed_addrs),
                dial.we_dialed,
            ).1
        },
        0 <= i < r@.len() - 1 ==> r@[i]@ is State,
{
    lemma_views(r@);
    let n = r@.len() as int;
    if n > 0 {
        assert(r@.last()@ == effect_views(r@)[n - 1]);
    }
    if 0 <= i < n - 1 {
        assert(r@[i]@ == effect_views(r@)[i]);
    }
}

/// A peer that was identified is known as the state makes it, gets its score with
/// gossipsub where that is in use, and is reported as connected, last, exactly
/// where it was not connected already.
pub proof fn law_new_peer_is_reported<E, C>(
    state: &mut State<E, C>,
    other: &mut State<E, C>,
    config: &Config,
    id: Identified,
    listen: Vec<Multiaddr>,
    moniker: String,
    r: Vec<Effect<C>>,
    score: Score,
    p: PeerId,
)
    requires
        call_ensures(handle_swarm_event::<E, C>, (state, config, SwarmEvent::PeerIdentified(id)), r),
        *old(other) == *old(state),
        addresses(listen@) == addresses(id.listen_addrs@),
        moniker@ == id.moniker@,
        call_ensures(
            State::<E, C>::update_peer,
            (other, id.peer, id.connection, &listen, moniker),
            score,
        ),
    ensures
        ({
            let s = final(state)@;
            let t = final(other)@;
            &&& s.peers.contains_key(p) == t.peers.contains_key(p)
            &&& t.peers.contains_key(p) ==> s.peers[p].peer_type == t.peers[p].peer_type
                && s.peers[p].score == t.peers[p].score && s.peers[p].moniker == t.peers[p].moniker
                && s.peers[p].address == t.peers[p].address
            &&& s.persistent_ids == t.persistent_ids && s.pending == t.pending
        }),
        old(state)@.gossipsub ==> r@.len() > 0 && r@[0]@ == EffectView::<C>::State(
            ActionView::SetScore(id.peer, score),
        ),
        !id.already_connected ==> r@.len() > 0 && r@.last()@ == EffectView::<C>::Emit(
            EventView::PeerConnected(id.peer),
        ),
        id.already_connected ==> !effect_views(r@).contains(
            EffectView::<C>::Emit(EventView::PeerConnected(id.peer)),
        ),
{
    lemma_views(r@);
    let n = r@.len() as int;
    let views = effect_views(r@);
    if n > 0 {
        assert(r@.last()@ == views[n - 1]);
    }
    let s1 = final(other)@;
    let s2 = s1.prioritized(id.peer).0;
    let w = s1.score_work(id.peer, score) + s1.prioritized(id.peer).2 + s2.explicit_added(id.peer).1;
    lemma_frame(s1, id.peer, p);
    if old(state)@.gossipsub {
        assert(w[0] == ActionView::SetScore(id.peer, score));
        assert(views[0] == EffectView::<C>::State(w[0]));
    }
    if id.already_connected {
        assert(views == state_work::<C>(w));
    }
}

proof fn lemma_frame<E, C>(s: StateView<E, C>, q: PeerId, p: PeerId)
    ensures
        ({
            let t = s.prioritized(q).0.explicit_added(q).0;
            &&& t.peers.contains_key(p) == s.peers.contains_key(p)
            &&& s.peers.contains_key(p) ==> s.peers[p].peer_type == t.peers[p].peer_type
                && s.peers[p].score == t.peers[p].score && s.peers[p].moniker == t.peers[p].moniker
                && s.peers[p].address == t.peers[p].address
            &&& s.persistent_ids == t.persistent_ids && s.pending == t.pending
        }),
{
}

/// Whether `topic` is the name of `channel`, and of none that is looked for before.
pub open spec fn names_channel(names: ChannelNames, topic: Seq<char>, channel: Channel) -> bool {
    match channel {
        Channel::Consensus => topic == names.consensus@,
        Channel::Liveness => topic == names.liveness@ && topic != names.consensus@,
        Channel::ProposalParts => topic == names.proposal_parts@ && topic != names.consensus@ && topic
            != names.liveness@,
        Channel::Sync => topic == names.sync@ && topic != names.consensus@ && topic != names.liveness@
            && topic != names.proposal_parts@,
    }
}

/// A message of gossipsub on a known channel, from a peer that is named, is
/// reported with its channel, its peer and its content, as a liveness message on
/// that channel and as a consensus message on the others.
pub proof fn law_gossip_is_reported<E, C>(
    state: &mut State<E, C>,
    config: &Config,
    peer: PeerId,
    topic: String,
    data: Vec<u8>,
    r: Vec<Effect<C>>,
    channel: Channel,
)
    requires
        call_ensures(
            handle_swarm_event::<E, C>,
            (
                state,
                config,
                SwarmEvent::GossipSub(
                    GossipSubEvent::Message { source: Some(peer), topic, data },
                ),
            ),
            r,
        ),
        names_channel(config.channel_names, topic@, channel),
    ensures
        final(state)@ == old(state)@,
        r@.len() == 1,
        channel == Channel::Liveness ==> r@[0]@ == EffectView::<C>::Emit(
            EventView::LivenessMessage(channel, peer, data@),
        ),
        channel != Channel::Liveness ==> r@[0]@ == EffectView::<C>::Emit(
            EventView::ConsensusMessage(channel, peer, data@),
        ),
{
    lemma_views(r@);
}

/// Nothing else of gossipsub is reported: no message without a peer or on another
/// topic, and no subscription.
pub proof fn law_other_gossip_is_not_reported<E, C>(
    state: &mut State<E, C>,
    config: &Config,
    event: GossipSubEvent,
    r: Vec<Effect<C>>,
)
    requires
        call_ensures(handle_swarm_event::<E, C>, (state, config, SwarmEvent::GossipSub(event)), r),
        match event {
            GossipSubEvent::Message { source: Some(_), topic, .. } => forall|channel: Channel|
                !names_channel(config.channel_names, topic@, channel),
            _ => true,
        },
    ensures
        final(state)@ == old(state)@,
        r@.len() == 0,
{
    lemma_views(r@);
    if let GossipSubEvent::Message { source: Some(_), topic, .. } = event {
        assert(!names_channel(config.channel_names, topic@, Channel::Consensus));
        assert(!names_channel(config.channel_names, topic@, Channel::Liveness));
        assert(!names_channel(config.channel_names, topic@, Channel::ProposalParts));
        assert(!names_channel(config.channel_names, topic@, Channel::Sync));
    }
}

/// What the broadcast protocol brings on a known channel is reported: that a peer
/// subscribed or unsubscribed, and messages, as those of gossipsub. On another
/// topic nothing is.
pub proof fn law_broadcast_is_reported<E, C>(
    state: &mut State<E, C>,
    config: &Config,
    event: BroadcastEvent,
    r: Vec<Effect<C>>,
)
    requires
        call_ensures(handle_swarm_event::<E, C>, (state, config, SwarmEvent::Broadcast(event)), r),
    ensures
        final(state)@ == old(state)@,
        ({
            let topic = match event {
                BroadcastEvent::Subscribed(_, t) => t@,
                BroadcastEvent::Unsubscribed(_, t) => t@,
                BroadcastEvent::Received(_, t, _) => t@,
            };
            match config.channel_names.channel_of_bytes(topic) {
                None => r@.len() == 0,
                Some(channel) => r@.len() == 1 && match event {
                    BroadcastEvent::Subscribed(p, _) => r@[0]@ == EffectView::<C>::Emit(
                        EventView::PeerSubscribed(p, channel),
                    ),
                    BroadcastEvent::Unsubscribed(p, _) => r@[0]@ == EffectView::<C>::Emit(
                        EventView::PeerUnsubscribed(p, channel),
                    ),
                    BroadcastEvent::Received(p, _, d) => r@[0]@ == EffectView::<C>::Emit(
                        if channel == Channel::Liveness {
                            EventView::LivenessMessage(channel, p, d@)
                        } else {
                            EventView::ConsensusMessage(channel, p, d@)
                        },
                    ),
                },
            }
        }),
{
    lemma_views(r@);
}

/// A topic is the bytes of the name of its channel.
pub proof fn law_topics_name_channels(names: ChannelNames, topic: Seq<u8>, channel: Channel)
    requires
        names.channel_of_bytes(topic) == Some(channel),
    ensures
        topic == vstd::utf8::encode_utf8(
            match channel {
                Channel::Consensus => names.consensus@,
                Channel::Liveness => names.liveness@,
                Channel::ProposalParts => names.proposal_parts@,
                Channel::Sync => names.sync@,
            },
        ),
{
}

/// A request of a peer is reported and can be answered from then on; a response and
/// a failure of a request are reported. A request that can no longer be answered is
/// not waited for. Nothing else about sync is reported.
pub proof fn law_sync_is_reported<E, C>(
    state: &mut State<E, C>,
    config: &Config,
    event: SyncEvent<C>,
    r: Vec<Effect<C>>,
    id: u64,
)
    requires
        call_ensures(handle_swarm_event::<E, C>, (state, config, SwarmEvent::Sync(event)), r),
    ensures
        final(state)@.peers == old(state)@.peers,
        match event {
            SyncEvent::Request { peer, request_id, body, channel } => {
                &&& r@.len() == 1
                &&& r@[0]@ == EffectView::<C>::Emit(EventView::SyncRequest(request_id, peer, body@))
                &&& final(state)@.sync_channels.contains_key(request_id)
                &&& final(state)@.sync_channels[request_id] == channel
                &&& id != request_id ==> final(state)@.sync_channels.contains_key(id) == old(
                    state,
                )@.sync_channels.contains_key(id)
            },
            SyncEvent::Response { peer, request_id, body } => {
                &&& r@.len() == 1
                &&& r@[0]@ == EffectView::<C>::Emit(EventView::SyncResponse(request_id, peer, body@))
                &&& final(state)@ == old(state)@
            },
            SyncEvent::OutboundFailure { peer, request_id, reason } => {
                &&& r@.len() == 1
                &&& r@[0]@ == EffectView::<C>::Emit(
                    EventView::SyncRequestFailed(request_id, peer, reason),
                )
                &&& final(state)@ == old(state)@
            },
            SyncEvent::InboundFailure { request_id } => {
                &&& r@.len() == 0
                &&& final(state)@.sync_channels.contains_key(id) == (old(
                    state,
                )@.sync_channels.contains_key(id) && id != request_id)
            },
            SyncEvent::ResponseSent => r@.len() == 0 && final(state)@ == old(state)@,
        },
{
    lemma_views(r@);
}

/// A validator proof is reported, with its peer; that one was sent, or could not
/// be, is not. An address that the node listens on is reported. An event of the
/// discovery protocols reaches its handler, and nothing else leads to anything.
pub proof fn law_other_events_are_reported<E, C>(
    state: &mut State<E, C>,
    config: &Config,
    event: SwarmEvent<E, C>,
    r: Vec<Effect<C>>,
)
    requires
        call_ensures(handle_swarm_event::<E, C>, (state, config, event), r),
        event is ValidatorProof || event is NewListenAddr || event is Other || event is Discovery,
    ensures
        final(state)@ == old(state)@,
        match event {
            SwarmEvent::ValidatorProof(ProofEvent::ProofReceived { peer, proof_bytes }) => r@.len() == 1
                && r@[0]@ == EffectView::<C>::Emit(
                EventView::ValidatorProofReceived(peer, proof_bytes@),
            ),
            SwarmEvent::NewListenAddr(a) => r@.len() == 1 && r@[0]@ == EffectView::<C>::Emit(
                EventView::Listening(a@),
            ),
            SwarmEvent::Discovery(e) => r@.len() == 1 && r@[0]@ is Discovery,
            _ => r@.len() == 0,
        },
{
    lemma_views(r@);
}

/// An event of the discovery protocols is handled as discovery says.
pub proof fn law_discovery_handles_its_events<E, C>(
    state: &mut State<E, C>,
    config: &Config,
    event: NetworkEvent,
    r: Vec<Effect<C>>,
    d: &Discovery<E>,
    handler: crate::discovery::state::Handler,
)
    requires
        call_ensures(handle_swarm_event::<E, C>, (state, config, SwarmEvent::Discovery(event)), r),
        d.state == old(state)@.discovery.state,
        call_ensures(Discovery::<E>::on_network_event, (d, event), handler),
    ensures
        r@.len() == 1 && r@[0]@ == EffectView::<C>::Discovery(handler),
{
    lemma_views(r@);
}

/// Publishing and subscribing take the names of the channels, in order, and are
/// possible exactly where the protocol is in use; otherwise the error names it.
pub proof fn law_publishing_needs_the_protocol(
    enabled: Enabled,
    protocol: PubSubProtocol,
    channel: Channel,
    channels: Vec<Channel>,
    names: ChannelNames,
    data: Vec<u8>,
    sent: Result<Publication, NotEnabled>,
    topics: Result<Vec<String>, NotEnabled>,
    i: int,
)
    requires
        call_ensures(publish, (enabled, protocol, channel, &names, data), sent),
        call_ensures(subscribe, (enabled, protocol, &channels, &names), topics),
    ensures
        sent is Ok <==> in_use(enabled, protocol),
        topics is Ok <==> in_use(enabled, protocol),
        sent matches Err(e) ==> e.0 == protocol,
        topics matches Err(e) ==> e.0 == protocol,
        sent matches Ok(p) ==> p.protocol == protocol && p.data == data && p.topic@ == names.name(
            channel,
        ),
        topics matches Ok(t) ==> t@.len() == channels@.len() && (0 <= i < t@.len() ==> t@[i]@
            == names.name(channels@[i])),
{
    if let Ok(t) = topics {
        assert(crate::text::texts(t@).len() == t@.len());
        if 0 <= i < t@.len() {
            assert(crate::text::texts(t@)[i] == t@[i]@);
            assert(crate::network::pubsub::topics(names, channels@)[i] == names.name(channels@[i]));
        }
    }
}

/// Each channel has its own name.
pub proof fn law_channels_have_their_names(names: ChannelNames)
    ensures
        names.name(Channel::Consensus) == names.consensus@,
        names.name(Channel::Liveness) == names.liveness@,
        names.name(Channel::ProposalParts) == names.proposal_parts@,
        names.name(Channel::Sync) == names.sync@,
{
}

/// When it starts, the service subscribes to the channels of consensus with the
/// configured protocol where consensus is on, and to that of sync with the
/// broadcast protocol where sync is on. It does not start where a protocol that it
/// needs is not in use.
pub proof fn law_service_subscribes_at_the_start(
    config: Config,
    enabled: Enabled,
    r: Result<Vec<Subscription>, NotEnabled>,
)
    requires
        call_ensures(startup_subscriptions, (&config, enabled), r),
    ensures
        r is Ok <==> (!config.enable_consensus || in_use(enabled, config.pubsub_protocol)) && (
        !config.enable_sync || enabled.broadcast),
        r matches Ok(subs) ==> {
            &&& subs@.len() == (if config.enable_consensus {
                1int
            } else {
                0
            }) + (if config.enable_sync {
                1int
            } else {
                0
            })
            &&& config.enable_consensus ==> subs@[0].protocol == config.pubsub_protocol
                && crate::text::texts(subs@[0].topics@) =~= seq![
                config.channel_names.consensus@,
                config.channel_names.liveness@,
                config.channel_names.proposal_parts@,
            ]
            &&& config.enable_sync ==> subs@.last().protocol == PubSubProtocol::Broadcast
                && crate::text::texts(subs@.last().topics@) =~= seq![config.channel_names.sync@]
        },
{
    if let Ok(subs) = r {
        let views = subs@.map_values(
            |s: Subscription| (s.protocol, crate::text::texts(s.topics@)),
        );
        assert(views.len() == subs@.len());
        if subs@.len() > 0 {
            assert(views[0] == (subs@[0].protocol, crate::text::texts(subs@[0].topics@)));
            let n = subs@.len() as int;
            assert(views[n - 1] == (
                subs@[n - 1].protocol,
                crate::text::texts(subs@[n - 1].topics@),
            ));
        }
    }
}

/// The service goes on after an event exactly where somebody listens, and describes
/// its peers every fifth time.
pub proof fn law_service_goes_on_while_heard(sent: bool, flow: Flow, ticks: &mut PeriodicTicks, logs: bool)
    requires
        call_ensures(after_emit, (sent,), flow),
        call_ensures(PeriodicTicks::tick, (ticks,), logs),
    ensures
        flow == Flow::Continue <==> sent,
        old(ticks).count < u32::MAX ==> final(ticks).count == old(ticks).count + 1,
        logs == (final(ticks).count % 5 == 0),
{
}

} // verus!
