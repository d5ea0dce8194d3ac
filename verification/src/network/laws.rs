//! What holds of the network as a whole.

use vstd::prelude::*;

use crate::discovery::state::{AddressView, ConnectionId};
use crate::engine::event::PeerId;
use crate::ident::Ranked;
use crate::network::config::Config;
use crate::network::ip_limits::LimitsView;
use crate::network::metrics::{
    distinct_slots, mesh_labels, peer_labels, with_slot, without_topics, LabelsView, MetricsView,
    MAX_PEER_SLOTS,
};
use crate::network::peer::{address_of_key, PeerView, Score, ValidatorView};
use crate::network::pubsub::Enabled;
use crate::network::service::{
    controlled, lemma_prioritized_keeps_addresses, CtrlMsg, EffectView,
};
use crate::network::state::{distinct, names_peer, unspecified_address, ActionView, StateView};
use crate::network::swarm::{swarm_step, sync_effects, SwarmEvent, SyncEvent};
use crate::network::validator_proof::behaviour::ProofVerificationResult;

verus! {

/// No more peers have metrics than there are slots.
pub proof fn law_slots_are_bounded(slots: Map<PeerId, usize>)
    requires
        slots.dom().finite(),
        distinct_slots(slots, MAX_PEER_SLOTS),
    ensures
        slots.len() <= MAX_PEER_SLOTS,
{
    let number = |p: PeerId| slots[p] as int;
    let image = slots.dom().map(number);
    let range = vstd::set_lib::set_int_range(0, MAX_PEER_SLOTS as int);
    vstd::set_lib::lemma_int_range(0, MAX_PEER_SLOTS as int);
    assert(vstd::relations::injective_on(number, slots.dom())) by {
        assert forall|p: PeerId, q: PeerId| #[trigger]
            slots.dom().contains(p) && #[trigger] slots.dom().contains(q) && number(p) == number(q)
            implies p == q by {
            assert(slots.contains_key(p) && slots.contains_key(q));
        }
    }
    vstd::set_lib::lemma_map_size(slots.dom(), image, number);
    assert(image.subset_of(range)) by {
        assert forall|n: int| image.contains(n) implies range.contains(n) by {
            let p = choose|p: PeerId| slots.dom().contains(p) && number(p) == n;
            assert(slots.contains_key(p));
        }
    }
    vstd::set_lib::lemma_len_subset(image, range);
}

/// The series of topics that are left are gone, and other series stay.
proof fn lemma_without_topics(
    mesh: Map<LabelsView, i64>,
    p: PeerId,
    moniker: Seq<char>,
    topics: Seq<Seq<char>>,
    keep: Seq<Seq<char>>,
)
    ensures
        forall|i: int|
            0 <= i < topics.len() && !keep.contains(#[trigger] topics[i]) ==> !without_topics(
                mesh,
                p,
                moniker,
                topics,
                keep,
            ).contains_key(mesh_labels(p, moniker, topics[i])),
    decreases topics.len(),
{
    if topics.len() > 0 {
        let front = topics.drop_last();
        lemma_without_topics(mesh, p, moniker, front, keep);
        assert forall|i: int| 0 <= i < topics.len() && !keep.contains(#[trigger] topics[i]) implies !without_topics(
            mesh,
            p,
            moniker,
            topics,
            keep,
        ).contains_key(mesh_labels(p, moniker, topics[i])) by {
            if i < front.len() {
                assert(front[i] == topics[i]);
            }
        }
    }
}

/// A peer that has left all meshes has no mesh series of the topics that it was
/// in.
pub proof fn law_left_meshes_have_no_series(m: MetricsView, p: PeerId, info: PeerView, score: Score, i: int)
    requires
        with_slot(m.slots, MAX_PEER_SLOTS, p).1 is Some,
        0 <= i < info.topics.len(),
    ensures
        !m.update_peer_metrics(
            p,
            info,
            score,
            Some(Seq::empty()),
        ).peer_mesh_membership.contains_key(mesh_labels(p, info.moniker, info.topics[i])),
{
    lemma_without_topics(m.peer_mesh_membership, p, info.moniker, info.topics, Seq::empty());
}

/// When a peer that was shown is gone, the series under what was last known of it
/// are gone: that of its score and those of the topics that it was in. Other
/// scores are as they were.
pub proof fn law_disconnected_peer_has_no_series(m: MetricsView, p: PeerId, info: PeerView)
    requires
        m.slots.contains_key(p),
    ensures
        !m.free_slot(p, info).slots.contains_key(p),
        m.free_slot(p, info).discovered_peers == m.discovered_peers.remove(
            peer_labels(p, m.slots[p], info),
        ),
        forall|i: int|
            0 <= i < info.topics.len() ==> !m.free_slot(p, info).peer_mesh_membership.contains_key(
                mesh_labels(p, info.moniker, #[trigger] info.topics[i]),
            ),
{
    lemma_without_topics(m.peer_mesh_membership, p, info.moniker, info.topics, Seq::empty());
}

/// A peer that connects and disconnects leaves the scores of the others, and
/// the slots, as they were, however often its address changes in between.
pub proof fn law_reconnects_leave_no_series(m: MetricsView, p: PeerId, first: PeerView, last: PeerView)
    requires
        !m.slots.contains_key(p),
        first.labels_match(last),
    ensures
        m.record_new_peer(p, first).free_slot(p, last).slots == m.slots,
        match with_slot(m.slots, MAX_PEER_SLOTS, p).1 {
            Some(s) => m.record_new_peer(p, first).free_slot(p, last).discovered_peers
                == m.discovered_peers.remove(peer_labels(p, s, first)),
            None => m.record_new_peer(p, first).free_slot(p, last).discovered_peers
                == m.discovered_peers,
        },
{
    let (slots, slot) = with_slot(m.slots, MAX_PEER_SLOTS, p);
    match slot {
        Some(s) => {
            assert(slots.remove(p) =~= m.slots);
            let labels = peer_labels(p, s, first);
            assert(m.discovered_peers.insert(labels, first.score.whole).remove(labels)
                =~= m.discovered_peers.remove(labels));
        },
        None => {},
    }
}

/// A peer whose labels change is shown once: under the new labels, and no
/// longer under the old ones where these differ.
pub proof fn law_changed_labels_move_the_series(m: MetricsView, p: PeerId, was: PeerView, now: PeerView)
    requires
        m.slots.contains_key(p),
        peer_labels(p, m.slots[p], was) != peer_labels(p, m.slots[p], now),
    ensures
        m.update_peer_labels(p, was, now).discovered_peers.contains_key(
            peer_labels(p, m.slots[p], now),
        ),
        !m.update_peer_labels(p, was, now).discovered_peers.contains_key(
            peer_labels(p, m.slots[p], was),
        ),
{
    assert(!was.labels_match(now)) by {
        if was.labels_match(now) {
            assert(peer_labels(p, m.slots[p], was) =~= peer_labels(p, m.slots[p], now));
        }
    }
}

/// What classifying `p` anew makes of what is known of it.
pub open spec fn as_classified<E, C>(s: StateView<E, C>, info: PeerView) -> PeerView {
    match info.consensus_public_key {
        Some(key) => s.with_key(info, key),
        None => info,
    }
}

/// Classifying the peers in `ids` anew changes those peers alone, each as its
/// proved key says, and lists those whose type has changed.
proof fn lemma_all_reclassified<E, C>(s: StateView<E, C>, ids: Seq<PeerId>)
    requires
        ids.no_duplicates(),
    ensures
        ({
            let (next, changes) = s.all_reclassified(ids);
            &&& next.validators == s.validators
            &&& next.scores == s.scores
            &&& next.peers.dom() == s.peers.dom()
            &&& forall|p: PeerId| #[trigger]
                s.peers.contains_key(p) ==> next.peers[p] == (if ids.contains(p) {
                    as_classified(s, s.peers[p])
                } else {
                    s.peers[p]
                })
            &&& forall|p: PeerId, x: Score| #[trigger]
                changes.contains((p, x)) == (ids.contains(p) && s.peers.contains_key(p)
                    && next.peers[p].peer_type != s.peers[p].peer_type && x == next.peers[p].score)
        }),
    decreases ids.len(),
{
    if ids.len() > 0 {
        let front = ids.drop_last();
        let last = ids.last();
        assert(front.no_duplicates());
        lemma_all_reclassified(s, front);
        let (before, earlier) = s.all_reclassified(front);
        let (next, changes) = s.all_reclassified(ids);
        assert(!front.contains(last)) by {
            if front.contains(last) {
                let k = choose|k: int| 0 <= k < front.len() && front[k] == last;
                assert(ids[k] == ids[ids.len() - 1]);
            }
        }
        assert forall|p: PeerId| ids.contains(p) == (front.contains(p) || p == last) by {
            if ids.contains(p) {
                let k = choose|k: int| 0 <= k < ids.len() && ids[k] == p;
                if k < front.len() {
                    assert(front[k] == p);
                }
            }
            if front.contains(p) {
                let k = choose|k: int| 0 <= k < front.len() && front[k] == p;
                assert(ids[k] == p);
            }
            assert(ids[ids.len() - 1] == last);
        }
        assert(next.peers.dom() =~= s.peers.dom());
        let (after, score) = before.reclassified(last);
        assert(after == next);
        assert forall|p: PeerId, x: Score| #[trigger]
            changes.contains((p, x)) == (ids.contains(p) && s.peers.contains_key(p)
                && next.peers[p].peer_type != s.peers[p].peer_type && x == next.peers[p].score) by {
            assert(earlier.contains((p, x)) == (front.contains(p) && s.peers.contains_key(p)
                && before.peers[p].peer_type != s.peers[p].peer_type && x == before.peers[p].score));
            match score {
                Some(y) => {
                    assert(changes == earlier.push((last, y)));
                    if changes.contains((p, x)) {
                        let k = choose|k: int| 0 <= k < changes.len() && changes[k] == (p, x);
                        if k < earlier.len() {
                            assert(earlier[k] == (p, x));
                        }
                    }
                    if earlier.contains((p, x)) {
                        let k = choose|k: int| 0 <= k < earlier.len() && earlier[k] == (p, x);
                        assert(changes[k] == (p, x));
                    }
                    assert(changes[earlier.len() as int] == (last, y));
                },
                None => {
                    assert(changes == earlier);
                },
            }
        }
    }
}

/// A new validator set classifies every peer that has proved to hold a key,
/// whether it has metrics or not, and no other. Those whose type has changed,
/// and no others, are reported, each with its new score.
pub proof fn law_validator_set_classifies_all_peers<E, C>(
    s: StateView<E, C>,
    validators: Seq<ValidatorView>,
    ids: Seq<PeerId>,
    p: PeerId,
    x: Score,
)
    requires
        ids.no_duplicates(),
        ids.to_set() == s.peers.dom(),
    ensures
        ({
            let start = s.with_validators(distinct(validators));
            let (next, changes) = start.all_reclassified(ids);
            &&& next.peers.dom() == s.peers.dom()
            &&& s.peers.contains_key(p) ==> next.peers[p] == as_classified(start, s.peers[p])
            &&& changes.contains((p, x)) == (s.peers.contains_key(p) && next.peers[p].peer_type
                != s.peers[p].peer_type && x == next.peers[p].score)
        }),
{
    let start = s.with_validators(distinct(validators));
    lemma_all_reclassified(start, ids);
    assert(ids.to_set().contains(p) == s.peers.dom().contains(p));
    assert(ids.contains(p) == s.peers.contains_key(p));
}

/// After a new validator set, a peer that has proved to hold a key is a
/// validator exactly where that key is in the set, and then has the address of
/// the validator; it keeps its key and whether it is persistent.
pub proof fn law_validators_are_those_in_the_set<E, C>(
    s: StateView<E, C>,
    validators: Seq<ValidatorView>,
    ids: Seq<PeerId>,
    p: PeerId,
    key: Seq<u8>,
)
    requires
        ids.no_duplicates(),
        ids.to_set() == s.peers.dom(),
        s.peers.contains_key(p),
        s.peers[p].consensus_public_key == Some(key),
    ensures
        ({
            let info = s.with_validators(distinct(validators)).all_reclassified(ids).0.peers[p];
            &&& info.peer_type.validator == address_of_key(distinct(validators), key) is Some
            &&& info.consensus_address == address_of_key(distinct(validators), key)
            &&& info.consensus_public_key == Some(key)
            &&& info.peer_type.persistent == s.peers[p].peer_type.persistent
        }),
{
    law_validator_set_classifies_all_peers(s, validators, ids, p, s.scores.full_node);
}

/// Whether a peer proves to hold a key before or after it is identified, the
/// same is known of it in the end.
pub proof fn law_proof_may_precede_identification<E, C>(
    s: StateView<E, C>,
    p: PeerId,
    key: Seq<u8>,
    connection: ConnectionId,
    address: AddressView,
    moniker: Seq<char>,
)
    requires
        !s.peers.contains_key(p),
        !s.pending.contains_key(p),
    ensures
        ({
            let early = s.proved(p, key).0.identified(p, connection, address, moniker).0;
            let late = s.identified(p, connection, address, moniker).0.proved(p, key).0;
            &&& early.peers == late.peers
            &&& early.pending == late.pending
            &&& early.metrics == late.metrics
        }),
{
    let early = s.proved(p, key).0.identified(p, connection, address, moniker).0;
    let late = s.identified(p, connection, address, moniker).0.proved(p, key).0;
    assert(s.pending.insert(p, key).remove(p) =~= s.pending);
    assert(s.pending.remove(p) =~= s.pending);
    assert(early.peers =~= late.peers);
}

/// A proof that comes before the peer is identified is kept and then applied:
/// the peer is a validator at once where its key is in the set.
pub proof fn law_pending_proof_is_applied<E, C>(
    s: StateView<E, C>,
    p: PeerId,
    key: Seq<u8>,
    connection: ConnectionId,
    address: AddressView,
    moniker: Seq<char>,
)
    requires
        !s.peers.contains_key(p),
    ensures
        s.proved(p, key).0.pending.contains_key(p),
        ({
            let (next, score) = s.proved(p, key).0.identified(p, connection, address, moniker);
            &&& !next.pending.contains_key(p)
            &&& next.peers[p].consensus_public_key == Some(key)
            &&& next.peers[p].peer_type.validator == address_of_key(s.validators, key) is Some
            &&& next.peers[p].score == score
        }),
{
}

/// Giving a peer an inbound slot takes none from a validator or a persistent
/// peer: who leaves is neither, and has the lowest score of such inbound peers.
pub proof fn law_priority_peers_are_not_evicted<E, C>(s: StateView<E, C>, p: PeerId, q: PeerId)
    ensures
        s.prioritized(p).1 matches Some(e) ==> {
            &&& s.discovery.inbound.contains(e)
            &&& !s.peers[e].peer_type.has_priority()
            &&& s.is_candidate(q) ==> s.peers[e].score.order <= s.peers[q].score.order
        },
        s.discovery.inbound.contains(q) && s.prioritized(p).1 != Some(q)
            ==> s.prioritized(p).0.discovery.inbound.contains(q),
{
    if let Some(e) = s.prioritized(p).1 {
        assert(s.lowest_inbound() == Some(e));
        let w = choose|w: PeerId| s.is_lowest(w);
        assert(s.is_lowest(w));
        assert(s.is_lowest(e));
        assert(s.is_candidate(e));
    }
}

/// Giving peers inbound slots never makes more inbound peers than are allowed.
pub proof fn law_inbound_peers_stay_within_bounds<E, C>(s: StateView<E, C>, p: PeerId)
    requires
        s.discovery.inbound.finite(),
        s.discovery.inbound.len() <= s.discovery.config.num_inbound_peers,
    ensures
        s.prioritized(p).0.discovery.inbound.len() <= s.discovery.config.num_inbound_peers,
        s.prioritized(p).0.discovery.inbound.finite(),
{
    if let Some(e) = s.lowest_inbound() {
        assert(s.discovery.inbound.remove(e).len() <= s.discovery.inbound.len());
        assert(s.discovery.inbound.remove(e).finite());
    }
}

/// A validator or a persistent peer that is connected without a slot gets one,
/// where there is room or another peer can leave.
pub proof fn law_priority_peer_gets_a_slot<E, C>(s: StateView<E, C>, p: PeerId)
    requires
        s.discovery.inbound.finite(),
        s.discovery.inbound.len() <= s.discovery.config.num_inbound_peers,
        s.peers.contains_key(p),
        s.peers[p].peer_type.has_priority(),
        s.discovery.is_ephemeral(p),
        s.discovery.inbound.len() < s.discovery.config.num_inbound_peers || s.lowest_inbound() is Some,
    ensures
        s.prioritized(p).0.discovery.inbound.contains(p),
{
    if let Some(e) = s.lowest_inbound() {
        let w = choose|w: PeerId| s.is_lowest(w);
        assert(s.is_lowest(w));
        assert(s.is_candidate(e));
        assert(s.discovery.inbound.contains(e));
        assert(s.discovery.inbound.remove(e).len() < s.discovery.inbound.len());
    }
}

/// A persistent peer that is added and then removed leaves the persistent
/// addresses as they were.
pub proof fn law_added_peer_can_be_removed<E, C>(s: StateView<E, C>, addr: AddressView)
    requires
        !s.persistent_addrs.contains(addr),
    ensures
        ({
            let (added, ok, _) = s.persistent_added(addr);
            let n = s.persistent_addrs.len() as int;
            &&& ok
            &&& added.persistent_addrs.contains(addr)
            &&& added.persistent_removed(n).0.persistent_addrs == s.persistent_addrs
        }),
{
    let added = s.persistent_added(addr).0;
    let n = s.persistent_addrs.len() as int;
    assert(added.persistent_addrs == s.persistent_addrs.push(addr));
    assert(added.persistent_addrs[n] == addr);
    assert(added.persistent_addrs.remove(n) =~= s.persistent_addrs);
}

/// A persistent peer that is named by its address is known, and is one no
/// longer after it was removed.
pub proof fn law_removed_peer_is_not_persistent<E, C>(s: StateView<E, C>, i: int, p: PeerId)
    requires
        0 <= i < s.persistent_addrs.len(),
        s.peer_behind(s.persistent_addrs[i]) == Some(p),
    ensures
        ({
            let next = s.persistent_removed(i).0;
            &&& !next.persistent_ids.contains(p)
            &&& next.peers.contains_key(p) ==> !next.peers[p].peer_type.persistent
            &&& next.peers.contains_key(p) && s.enable_explicit_peering && s.gossipsub
                ==> !next.peers[p].is_explicit
        }),
{
}

/// A peer that has left is known no longer, and has to be found persistent anew
/// unless an address names it.
pub proof fn law_peer_that_left_is_forgotten<E, C>(s: StateView<E, C>, p: PeerId)
    ensures
        !s.peer_left(p).0.peers.contains_key(p),
        !s.peer_left(p).0.pending.contains_key(p),
        !names_peer(s.persistent_addrs, p) ==> !s.peer_left(p).0.persistent_ids.contains(p),
        names_peer(s.persistent_addrs, p) ==> s.peer_left(p).0.persistent_ids.contains(p)
            == s.persistent_ids.contains(p),
{
}

/// A request is answered once: a second answer, or one after the request has
/// failed, has no effect.
pub proof fn law_sync_request_is_answered_once<E, C>(
    s: StateView<E, C>,
    limits: LimitsView,
    config: Config,
    enabled: Enabled,
    ids: Seq<PeerId>,
    id: u64,
    first: Vec<u8>,
    second: Vec<u8>,
)
    requires
        enabled.sync,
    ensures
        ({
            let replied = controlled(s, limits, config, enabled, ids, CtrlMsg::SyncReply(id, first)).0;
            let failed = StateView {
                sync_channels: sync_effects(
                    s.sync_channels,
                    SyncEvent::InboundFailure { request_id: id },
                ).0,
                ..s
            };
            &&& controlled(replied, limits, config, enabled, ids, CtrlMsg::SyncReply(id, second)) == (
                replied,
                limits,
                Seq::<EffectView<C>>::empty(),
            )
            &&& controlled(failed, limits, config, enabled, ids, CtrlMsg::SyncReply(id, second)) == (
                failed,
                limits,
                Seq::<EffectView<C>>::empty(),
            )
        }),
{
}

/// A request that came in can be answered, through what it came with.
pub proof fn law_sync_request_can_be_answered<E, C>(
    s: StateView<E, C>,
    limits: LimitsView,
    config: Config,
    enabled: Enabled,
    ids: Seq<PeerId>,
    id: u64,
    peer: PeerId,
    body: Vec<u8>,
    channel: C,
    answer: Vec<u8>,
)
    requires
        enabled.sync,
    ensures
        ({
            let asked = StateView {
                sync_channels: sync_effects(
                    s.sync_channels,
                    SyncEvent::Request { peer, request_id: id, body, channel },
                ).0,
                ..s
            };
            controlled(asked, limits, config, enabled, ids, CtrlMsg::SyncReply(id, answer)).2 == seq![
                EffectView::SyncResponse(channel, answer@),
            ]
        }),
{
}

/// A peer with an invalid proof is disconnected, and nothing is learnt of it.
pub proof fn law_invalid_proof_disconnects<E, C>(
    s: StateView<E, C>,
    limits: LimitsView,
    config: Config,
    enabled: Enabled,
    ids: Seq<PeerId>,
    peer_id: PeerId,
    public_key: Option<Vec<u8>>,
)
    ensures
        controlled(
            s,
            limits,
            config,
            enabled,
            ids,
            CtrlMsg::ValidatorProofVerified {
                peer_id,
                result: ProofVerificationResult::Invalid,
                public_key,
            },
        ) == (s, limits, seq![EffectView::<C>::Disconnect(peer_id)]),
{
}

/// Events of the swarm change no persistent address, so that the exemptions of
/// the limiter stay matched to them.
pub proof fn law_swarm_events_keep_persistent_addresses<E, C>(
    s: StateView<E, C>,
    config: Config,
    event: SwarmEvent<E, C>,
)
    ensures
        swarm_step(s, config, event).0.persistent_addrs == s.persistent_addrs,
{
    match event {
        SwarmEvent::PeerIdentified(i) => {
            let s1 = s.identified(
                i.peer,
                i.connection,
                s.address_on(i.connection, i@.listen_addrs, unspecified_address()),
                i.moniker@,
            ).0;
            lemma_prioritized_keeps_addresses(s1, i.peer);
        },
        _ => {},
    }
}

/// Whether a proof is pending only for peers that are not identified.
pub open spec fn pending_for_unknown<E, C>(s: StateView<E, C>) -> bool {
    forall|p: PeerId| #[trigger] s.pending.contains_key(p) ==> !s.peers.contains_key(p)
}

/// A proof is pending only while its peer is not identified: proofs,
/// identifications and peers that leave keep it so.
pub proof fn law_proofs_pend_for_unknown_peers_only<E, C>(
    s: StateView<E, C>,
    p: PeerId,
    key: Seq<u8>,
    connection: ConnectionId,
    address: AddressView,
    moniker: Seq<char>,
)
    requires
        pending_for_unknown(s),
    ensures
        pending_for_unknown(s.proved(p, key).0),
        pending_for_unknown(s.identified(p, connection, address, moniker).0),
        pending_for_unknown(s.peer_left(p).0),
{
}

/// An explicit peer is persistent: a peer is made explicit only where it is, and
/// one that is no longer persistent is made explicit no longer.
pub proof fn law_explicit_peers_are_persistent<E, C>(s: StateView<E, C>, p: PeerId)
    ensures
        s.explicit_added(p).1.len() > 0 ==> s.peers[p].peer_type.persistent,
        s.explicit_added(p).0.explicit_added(p).1.len() == 0,
        s.explicit_added(p).1.len() > 0 ==> s.explicit_added(p).0.explicit_removed(p).1 == seq![
            ActionView::RemoveExplicitPeer(p),
        ],
{
}

} // verus!
