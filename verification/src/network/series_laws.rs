//! The series of peers: one for each peer that has a slot, and no others, whatever
//! the service is told and whatever the swarm reports.

use vstd::prelude::*;

use crate::discovery::state::{AddressView, ConnectionId};
use crate::engine::event::PeerId;
use crate::engine::network::PersistentPeersOp;
use crate::network::config::Config;
use crate::network::ip_limits::LimitsView;
use crate::network::membership::is_first;
use crate::network::metrics::{
    distinct_slots, lemma_lowest_free, lowest_free, peer_labels, with_slot, LabelsView, MetricsView,
    MAX_PEER_SLOTS,
};
use crate::network::multiaddr::peer_in;
use crate::network::peer::{validator_views, PeerView, Score};
use crate::network::pubsub::Enabled;
use crate::network::service::{all_prioritized, controlled, CtrlMsg};
use crate::network::state::{distinct, unspecified_address, StateView};
use crate::network::swarm::{swarm_step, SwarmEvent};
use crate::text::{decimal, digit};

verus! {

/// Different numbers are written differently.
pub proof fn lemma_decimal_injective(a: nat, b: nat)
    requires
        decimal(a) == decimal(b),
    ensures
        a == b,
    decreases a,
{
    lemma_decimal_len(a);
    lemma_decimal_len(b);
    if a >= 10 && b >= 10 {
        let x = decimal(a / 10);
        let y = decimal(b / 10);
        assert(x.push(digit(a % 10)).drop_last() =~= x);
        assert(y.push(digit(b % 10)).drop_last() =~= y);
        lemma_decimal_injective(a / 10, b / 10);
        assert(x.push(digit(a % 10)).last() == digit(a % 10));
        assert(y.push(digit(b % 10)).last() == digit(b % 10));
        lemma_digit_injective(a % 10, b % 10);
    } else if a < 10 && b < 10 {
        assert(decimal(a)[0] == digit(a));
        assert(decimal(b)[0] == digit(b));
        lemma_digit_injective(a, b);
    }
}

proof fn lemma_digit_injective(a: nat, b: nat)
    requires
        a < 10,
        b < 10,
        digit(a) == digit(b),
    ensures
        a == b,
{
}

/// A number has one digit exactly where it is below ten.
proof fn lemma_decimal_len(a: nat)
    ensures
        decimal(a).len() >= 1,
        decimal(a).len() == 1 <==> a < 10,
    decreases a,
{
    if a >= 10 {
        lemma_decimal_len(a / 10);
    }
}

/// Peers with different slots have different labels.
proof fn lemma_labels_differ(p: PeerId, q: PeerId, a: usize, b: usize, x: PeerView, y: PeerView)
    requires
        a != b,
    ensures
        peer_labels(p, a, x) != peer_labels(q, b, y),
{
    if peer_labels(p, a, x) == peer_labels(q, b, y) {
        assert(peer_labels(p, a, x)[0] == peer_labels(q, b, y)[0]);
        lemma_decimal_injective(a as nat, b as nat);
    }
}

/// Whether `k` are the labels of a peer that has a slot.
pub open spec fn labels_of_peer(
    slots: Map<PeerId, usize>,
    peers: Map<PeerId, PeerView>,
    k: LabelsView,
) -> bool {
    exists|p: PeerId| #[trigger] slots.contains_key(p) && k == peer_labels(p, slots[p], peers[p])
}

/// Whether slots belong to known peers, each to one, and the series of scores
/// are those of the peers that have slots.
pub open spec fn series_match(metrics: MetricsView, peers: Map<PeerId, PeerView>) -> bool {
    &&& distinct_slots(metrics.slots, MAX_PEER_SLOTS)
    &&& forall|p: PeerId| #[trigger] metrics.slots.contains_key(p) ==> peers.contains_key(p)
    &&& forall|k: LabelsView| #[trigger]
        metrics.discovered_peers.contains_key(k) == labels_of_peer(metrics.slots, peers, k)
}

/// Without peers and metrics, the series match.
pub proof fn law_series_match_at_the_start()
    ensures
        series_match(MetricsView::empty(), Map::empty()),
{
}

/// Where the series match, there are no more than there are slots: each is the
/// series of one peer.
pub proof fn law_each_series_has_a_slot(metrics: MetricsView, peers: Map<PeerId, PeerView>, k: LabelsView)
    requires
        series_match(metrics, peers),
        metrics.discovered_peers.contains_key(k),
    ensures
        exists|p: PeerId| #[trigger]
            metrics.slots.contains_key(p) && peers.contains_key(p) && k == peer_labels(
                p,
                metrics.slots[p],
                peers[p],
            ),
{
    assert(labels_of_peer(metrics.slots, peers, k));
    let p = choose|p: PeerId| #[trigger]
        metrics.slots.contains_key(p) && k == peer_labels(p, metrics.slots[p], peers[p]);
    assert(metrics.slots.contains_key(p));
}

/// The series still match after the labels of a known peer were updated.
proof fn lemma_updated_series_match(
    m: MetricsView,
    peers: Map<PeerId, PeerView>,
    p: PeerId,
    info: PeerView,
)
    requires
        series_match(m, peers),
        peers.contains_key(p),
    ensures
        series_match(m.update_peer_labels(p, peers[p], info), peers.insert(p, info)),
{
    let was = peers[p];
    let next = m.update_peer_labels(p, was, info);
    let known = peers.insert(p, info);
    assert forall|k: LabelsView| #[trigger]
        next.discovered_peers.contains_key(k) == labels_of_peer(next.slots, known, k) by {
        assert(m.discovered_peers.contains_key(k) == labels_of_peer(m.slots, peers, k));
        if m.slots.contains_key(p) {
            let s = m.slots[p];
            if labels_of_peer(m.slots, peers, k) {
                let q = choose|q: PeerId| #[trigger]
                    m.slots.contains_key(q) && k == peer_labels(q, m.slots[q], peers[q]);
                if q != p {
                    lemma_labels_differ(q, p, m.slots[q], s, peers[q], was);
                    assert(next.slots.contains_key(q) && k == peer_labels(q, next.slots[q], known[q]));
                } else if was.labels_match(info) {
                    assert(peer_labels(p, s, was) =~= peer_labels(p, s, info));
                    assert(next.slots.contains_key(p) && k == peer_labels(p, s, known[p]));
                }
            }
            if labels_of_peer(next.slots, known, k) {
                let q = choose|q: PeerId| #[trigger]
                    next.slots.contains_key(q) && k == peer_labels(q, next.slots[q], known[q]);
                if q != p {
                    assert(m.slots.contains_key(q) && k == peer_labels(q, m.slots[q], peers[q]));
                    lemma_labels_differ(q, p, m.slots[q], s, peers[q], was);
                }
            }
            if k == peer_labels(p, s, info) {
                assert(next.slots.contains_key(p) && k == peer_labels(p, next.slots[p], known[p]));
            }
        } else {
            if labels_of_peer(m.slots, peers, k) {
                let q = choose|q: PeerId| #[trigger]
                    m.slots.contains_key(q) && k == peer_labels(q, m.slots[q], peers[q]);
                assert(next.slots.contains_key(q) && k == peer_labels(q, next.slots[q], known[q]));
            }
            if labels_of_peer(next.slots, known, k) {
                let q = choose|q: PeerId| #[trigger]
                    next.slots.contains_key(q) && k == peer_labels(q, next.slots[q], known[q]);
                assert(m.slots.contains_key(q) && k == peer_labels(q, m.slots[q], peers[q]));
            }
        }
    }
}

/// The series still match after a peer was shown, under the labels of `info`,
/// which is known of it as far as labels go.
proof fn lemma_shown_series_match(
    m: MetricsView,
    peers: Map<PeerId, PeerView>,
    p: PeerId,
    info: PeerView,
    known: PeerView,
    value: i64,
)
    requires
        series_match(m, peers),
        m.slots.contains_key(p) ==> peers[p].labels_match(info),
        info.labels_match(known),
    ensures
        ({
            let (slots, slot) = with_slot(m.slots, MAX_PEER_SLOTS, p);
            let next = match slot {
                Some(s) => MetricsView {
                    slots,
                    discovered_peers: m.discovered_peers.insert(peer_labels(p, s, info), value),
                    ..m
                },
                None => m,
            };
            series_match(next, peers.insert(p, known))
        }),
{
    let (slots, slot) = with_slot(m.slots, MAX_PEER_SLOTS, p);
    lemma_lowest_free(m.slots, MAX_PEER_SLOTS, 0);
    let next = match slot {
        Some(s) => MetricsView {
            slots,
            discovered_peers: m.discovered_peers.insert(peer_labels(p, s, info), value),
            ..m
        },
        None => m,
    };
    let all = peers.insert(p, known);
    assert forall|k: LabelsView| #[trigger]
        next.discovered_peers.contains_key(k) == labels_of_peer(next.slots, all, k) by {
        assert(m.discovered_peers.contains_key(k) == labels_of_peer(m.slots, peers, k));
        if labels_of_peer(m.slots, peers, k) {
            let q = choose|q: PeerId| #[trigger]
                m.slots.contains_key(q) && k == peer_labels(q, m.slots[q], peers[q]);
            if q == p {
                assert(peer_labels(p, m.slots[p], peers[p]) =~= peer_labels(p, m.slots[p], known));
            }
            assert(next.slots.contains_key(q) && k == peer_labels(q, next.slots[q], all[q]));
        }
        if labels_of_peer(next.slots, all, k) {
            let q = choose|q: PeerId| #[trigger]
                next.slots.contains_key(q) && k == peer_labels(q, next.slots[q], all[q]);
            if q != p {
                assert(m.slots.contains_key(q) && k == peer_labels(q, m.slots[q], peers[q]));
            } else {
                assert(peer_labels(p, next.slots[p], known) =~= peer_labels(p, next.slots[p], info));
            }
        }
        if let Some(s) = slot {
            if k == peer_labels(p, s, info) {
                assert(peer_labels(p, s, info) =~= peer_labels(p, s, known));
                assert(next.slots.contains_key(p) && k == peer_labels(p, next.slots[p], all[p]));
            }
        }
    }
}

/// The series still match after a known peer has left.
proof fn lemma_freed_series_match(m: MetricsView, peers: Map<PeerId, PeerView>, p: PeerId)
    requires
        series_match(m, peers),
    ensures
        series_match(
            if peers.contains_key(p) {
                m.free_slot(p, peers[p])
            } else {
                m
            },
            peers.remove(p),
        ),
{
    let next = if peers.contains_key(p) {
        m.free_slot(p, peers[p])
    } else {
        m
    };
    let rest = peers.remove(p);
    assert(!next.slots.contains_key(p));
    assert forall|k: LabelsView| #[trigger]
        next.discovered_peers.contains_key(k) == labels_of_peer(next.slots, rest, k) by {
        assert(m.discovered_peers.contains_key(k) == labels_of_peer(m.slots, peers, k));
        if labels_of_peer(m.slots, peers, k) {
            let q = choose|q: PeerId| #[trigger]
                m.slots.contains_key(q) && k == peer_labels(q, m.slots[q], peers[q]);
            if q != p {
                if m.slots.contains_key(p) {
                    lemma_labels_differ(q, p, m.slots[q], m.slots[p], peers[q], peers[p]);
                }
                assert(next.slots.contains_key(q) && k == peer_labels(q, next.slots[q], rest[q]));
            }
        }
        if labels_of_peer(next.slots, rest, k) {
            let q = choose|q: PeerId| #[trigger]
                next.slots.contains_key(q) && k == peer_labels(q, next.slots[q], rest[q]);
            assert(m.slots.contains_key(q) && k == peer_labels(q, m.slots[q], peers[q]));
            if m.slots.contains_key(p) {
                lemma_labels_differ(q, p, m.slots[q], m.slots[p], peers[q], peers[p]);
            }
        }
    }
}

/// The series of meshes do not count.
proof fn lemma_meshes_do_not_count(m: MetricsView, n: MetricsView, peers: Map<PeerId, PeerView>)
    requires
        series_match(m, peers),
        m.slots == n.slots,
        m.discovered_peers == n.discovered_peers,
    ensures
        series_match(n, peers),
{
    assert forall|k: LabelsView| #[trigger]
        n.discovered_peers.contains_key(k) == labels_of_peer(n.slots, peers, k) by {
        assert(m.discovered_peers.contains_key(k) == labels_of_peer(m.slots, peers, k));
    }
}

/// A verified proof keeps the series matched to the peers.
pub proof fn law_proof_keeps_series_matched<E, C>(s: StateView<E, C>, p: PeerId, key: Seq<u8>)
    requires
        series_match(s.metrics, s.peers),
    ensures
        series_match(s.proved(p, key).0.metrics, s.proved(p, key).0.peers),
{
    if s.peers.contains_key(p) {
        lemma_updated_series_match(s.metrics, s.peers, p, s.with_key(s.peers[p], key));
    }
}

/// A new validator set keeps the series matched to the peers.
pub proof fn law_validator_set_keeps_series_matched<E, C>(s: StateView<E, C>, ids: Seq<PeerId>)
    requires
        series_match(s.metrics, s.peers),
    ensures
        series_match(s.all_reclassified(ids).0.metrics, s.all_reclassified(ids).0.peers),
    decreases ids.len(),
{
    if ids.len() > 0 {
        law_validator_set_keeps_series_matched(s, ids.drop_last());
        let before = s.all_reclassified(ids.drop_last()).0;
        let p = ids.last();
        if before.peers.contains_key(p) {
            if let Some(key) = before.peers[p].consensus_public_key {
                lemma_updated_series_match(
                    before.metrics,
                    before.peers,
                    p,
                    before.with_key(before.peers[p], key),
                );
            }
        }
    }
}

/// A peer that is identified, for the first time or again, from whatever
/// address, keeps the series matched to the peers.
pub proof fn law_identification_keeps_series_matched<E, C>(
    s: StateView<E, C>,
    p: PeerId,
    connection: ConnectionId,
    address: AddressView,
    moniker: Seq<char>,
)
    requires
        series_match(s.metrics, s.peers),
    ensures
        ({
            let next = s.identified(p, connection, address, moniker).0;
            series_match(next.metrics, next.peers)
        }),
{
    let persistent = s.is_persistent(p, connection);
    let direction = s.direction_of(p);
    let noted = StateView {
        persistent_ids: if persistent {
            s.persistent_ids.insert(p)
        } else {
            s.persistent_ids
        },
        ..s
    };
    if s.peers.contains_key(p) {
        let info = s.seen_again(s.peers[p], persistent, direction, address, moniker);
        lemma_updated_series_match(s.metrics, s.peers, p, info);
    } else {
        let info = s.first_seen(persistent, direction, address, moniker);
        lemma_shown_series_match(s.metrics, s.peers, p, info, info, info.score.whole);
        let added = StateView {
            peers: noted.peers.insert(p, info),
            metrics: noted.metrics.record_new_peer(p, info),
            pending: noted.pending.remove(p),
            ..noted
        };
        if s.pending.contains_key(p) {
            law_proof_keeps_series_matched(added, p, s.pending[p]);
        }
    }
}

/// Taking over scores and meshes keeps the series matched to the peers.
pub proof fn law_refresh_keeps_series_matched<E, C>(
    s: StateView<E, C>,
    ids: Seq<PeerId>,
    scores: Map<PeerId, Score>,
    meshes: Seq<(Seq<char>, Seq<PeerId>)>,
)
    requires
        series_match(s.metrics, s.peers),
    ensures
        ({
            let next = s.all_refreshed(ids, scores, meshes);
            series_match(next.metrics, next.peers)
        }),
    decreases ids.len(),
{
    if ids.len() > 0 {
        law_refresh_keeps_series_matched(s, ids.drop_last(), scores, meshes);
        let before = s.all_refreshed(ids.drop_last(), scores, meshes);
        let after = s.all_refreshed(ids, scores, meshes);
        let p = ids.last();
        if before.peers.contains_key(p) {
            let was = before.peers[p];
            let now = after.peers[p];
            let score = if scores.contains_key(p) {
                scores[p]
            } else {
                was.score
            };
            lemma_shown_series_match(before.metrics, before.peers, p, was, now, score.whole);
            let (slots, slot) = with_slot(before.metrics.slots, MAX_PEER_SLOTS, p);
            let shown = match slot {
                Some(x) => MetricsView {
                    slots,
                    discovered_peers: before.metrics.discovered_peers.insert(
                        peer_labels(p, x, was),
                        score.whole,
                    ),
                    ..before.metrics
                },
                None => before.metrics,
            };
            assert(after.peers == before.peers.insert(p, now));
            lemma_meshes_do_not_count(shown, after.metrics, after.peers);
        }
    }
}

/// A peer that has left leaves the series matched to the others, and none of
/// its own: none with the slot that it had.
pub proof fn law_leaving_keeps_series_matched<E, C>(s: StateView<E, C>, p: PeerId)
    requires
        series_match(s.metrics, s.peers),
    ensures
        series_match(s.peer_left(p).0.metrics, s.peer_left(p).0.peers),
        !s.peer_left(p).0.metrics.slots.contains_key(p),
        s.metrics.slots.contains_key(p) ==> forall|q: PeerId, x: PeerView|
            !s.peer_left(p).0.metrics.discovered_peers.contains_key(
                #[trigger] peer_labels(q, s.metrics.slots[p], x),
            ),
{
    let (quiet, _) = s.explicit_removed(p);
    if s.peers.contains_key(p) {
        let info = quiet.peers[p];
        assert(quiet.peers =~= s.peers.insert(p, info));
        lemma_updated_series_match(s.metrics, s.peers, p, info);
        lemma_same_labels(s.metrics, s.peers, p, info);
    }
    lemma_freed_series_match(quiet.metrics, quiet.peers, p);
    let left = s.peer_left(p).0;
    if s.metrics.slots.contains_key(p) {
        let slot = s.metrics.slots[p];
        assert forall|q: PeerId, x: PeerView| !left.metrics.discovered_peers.contains_key(
            #[trigger] peer_labels(q, slot, x),
        ) by {
            let k = peer_labels(q, slot, x);
            if left.metrics.discovered_peers.contains_key(k) {
                assert(labels_of_peer(left.metrics.slots, left.peers, k));
                let o = choose|o: PeerId| #[trigger]
                    left.metrics.slots.contains_key(o) && k == peer_labels(
                        o,
                        left.metrics.slots[o],
                        left.peers[o],
                    );
                assert(s.metrics.slots.contains_key(o));
                lemma_labels_differ(q, o, slot, left.metrics.slots[o], x, left.peers[o]);
            }
        }
    }
}

/// Another persistent role of a peer keeps the series matched to the peers.
pub proof fn law_persistent_role_keeps_series_matched<E, C>(
    s: StateView<E, C>,
    p: PeerId,
    persistent: bool,
)
    requires
        series_match(s.metrics, s.peers),
    ensures
        series_match(s.persistent_set(p, persistent).0.metrics, s.persistent_set(p, persistent).0.peers),
{
    if s.peers.contains_key(p) {
        let next = s.persistent_set(p, persistent).0;
        lemma_updated_series_match(s.metrics, s.peers, p, next.peers[p]);
    }
}

/// Giving a peer an inbound slot keeps the series matched to the peers.
pub proof fn law_prioritizing_keeps_series_matched<E, C>(s: StateView<E, C>, p: PeerId)
    requires
        series_match(s.metrics, s.peers),
    ensures
        series_match(s.prioritized(p).0.metrics, s.prioritized(p).0.peers),
{
    let next = s.prioritized(p).0;
    if s.peers.contains_key(p) {
        lemma_same_labels(s.metrics, s.peers, p, next.peers[p]);
        assert(s.peers.insert(p, s.peers[p]) =~= s.peers);
    }
}

/// Making a peer an explicit peer, or one no longer, keeps the series matched to
/// the peers.
pub proof fn law_explicit_role_keeps_series_matched<E, C>(s: StateView<E, C>, p: PeerId)
    requires
        series_match(s.metrics, s.peers),
    ensures
        series_match(s.explicit_added(p).0.metrics, s.explicit_added(p).0.peers),
        series_match(s.explicit_removed(p).0.metrics, s.explicit_removed(p).0.peers),
{
    if s.peers.contains_key(p) {
        let added = s.explicit_added(p).0;
        let removed = s.explicit_removed(p).0;
        assert(s.peers.insert(p, s.peers[p]) =~= s.peers);
        lemma_same_labels(s.metrics, s.peers, p, added.peers[p]);
        lemma_same_labels(s.metrics, s.peers, p, removed.peers[p]);
        lemma_meshes_do_not_count(s.metrics, added.metrics, added.peers);
        lemma_meshes_do_not_count(s.metrics, removed.metrics, removed.peers);
    }
}

/// Adding a persistent peer, connected or not, keeps the series matched to the
/// peers.
pub proof fn law_adding_persistent_peer_keeps_series_matched<E, C>(s: StateView<E, C>, addr: AddressView)
    requires
        series_match(s.metrics, s.peers),
    ensures
        series_match(s.persistent_added(addr).0.metrics, s.persistent_added(addr).0.peers),
{
    if !s.persistent_addrs.contains(addr) {
        if let Some(p) = peer_in(addr) {
            let known = StateView { persistent_ids: s.persistent_ids.insert(p), ..s };
            law_persistent_role_keeps_series_matched(known, p, true);
            let s1 = known.persistent_set(p, true).0;
            law_prioritizing_keeps_series_matched(s1, p);
            law_explicit_role_keeps_series_matched(s1.prioritized(p).0, p);
        }
    }
}

/// Removing a persistent peer, connected or not, keeps the series matched to the
/// peers.
pub proof fn law_removing_persistent_peer_keeps_series_matched<E, C>(s: StateView<E, C>, i: int)
    requires
        series_match(s.metrics, s.peers),
    ensures
        series_match(s.persistent_removed(i).0.metrics, s.persistent_removed(i).0.peers),
{
    let addr = s.persistent_addrs[i];
    if let Some(p) = s.peer_behind(addr) {
        let known = StateView {
            persistent_addrs: s.persistent_addrs.remove(i),
            persistent_ids: s.persistent_ids.remove(p),
            ..s
        };
        law_explicit_role_keeps_series_matched(known, p);
        law_persistent_role_keeps_series_matched(known.explicit_removed(p).0, p, false);
    }
}

/// Giving peers inbound slots keeps the series matched to the peers.
proof fn lemma_all_prioritized_series_match<E, C>(s: StateView<E, C>, ids: Seq<PeerId>)
    requires
        series_match(s.metrics, s.peers),
    ensures
        series_match(all_prioritized(s, ids).0.metrics, all_prioritized(s, ids).0.peers),
    decreases ids.len(),
{
    if ids.len() > 0 {
        lemma_all_prioritized_series_match(s, ids.drop_last());
        law_prioritizing_keeps_series_matched(all_prioritized(s, ids.drop_last()).0, ids.last());
    }
}

/// Whatever the service is told, the series stay matched to the peers.
pub proof fn law_control_keeps_series_matched<E, C>(
    s: StateView<E, C>,
    limits: LimitsView,
    config: Config,
    enabled: Enabled,
    ids: Seq<PeerId>,
    msg: CtrlMsg,
)
    requires
        series_match(s.metrics, s.peers),
    ensures
        ({
            let next = controlled(s, limits, config, enabled, ids, msg).0;
            series_match(next.metrics, next.peers)
        }),
{
    match msg {
        CtrlMsg::UpdateValidatorSet(validators) => {
            let informed = s.with_validators(distinct(validator_views(validators@)));
            lemma_meshes_do_not_count(s.metrics, informed.metrics, s.peers);
            law_validator_set_keeps_series_matched(informed, ids);
            let (classified, changes) = informed.all_reclassified(ids);
            lemma_all_prioritized_series_match(
                classified,
                changes.map_values(|c: (PeerId, Score)| c.0),
            );
        },
        CtrlMsg::ValidatorProofVerified { peer_id, result, public_key } => {
            if let Some(key) = public_key {
                law_proof_keeps_series_matched(s, peer_id, key@);
                law_prioritizing_keeps_series_matched(s.proved(peer_id, key@).0, peer_id);
            }
        },
        CtrlMsg::UpdatePersistentPeers(PersistentPeersOp::Add(addr)) => {
            law_adding_persistent_peer_keeps_series_matched(s, addr@);
        },
        CtrlMsg::UpdatePersistentPeers(PersistentPeersOp::Remove(addr)) => {
            law_removing_persistent_peer_keeps_series_matched(
                s,
                choose|i: int| is_first(s.persistent_addrs, addr@, i),
            );
        },
        _ => {},
    }
}

/// Whatever the swarm reports, the series stay matched to the peers.
pub proof fn law_swarm_keeps_series_matched<E, C>(
    s: StateView<E, C>,
    config: Config,
    event: SwarmEvent<E, C>,
)
    requires
        series_match(s.metrics, s.peers),
    ensures
        ({
            let next = swarm_step(s, config, event).0;
            series_match(next.metrics, next.peers)
        }),
{
    match event {
        SwarmEvent::PeerGone(p) => {
            let forgotten = StateView { discovery: s.discovery.forgotten(p).0, ..s };
            law_leaving_keeps_series_matched(forgotten, p);
        },
        SwarmEvent::PeerIdentified(i) => {
            let address = s.address_on(
                i.connection,
                i@.listen_addrs,
                unspecified_address(),
            );
            law_identification_keeps_series_matched(s, i.peer, i.connection, address, i.moniker@);
            let s1 = s.identified(i.peer, i.connection, address, i.moniker@).0;
            law_prioritizing_keeps_series_matched(s1, i.peer);
            law_explicit_role_keeps_series_matched(s1.prioritized(i.peer).0, i.peer);
        },
        _ => {},
    }
}

/// What the labels do not show may change.
proof fn lemma_same_labels(m: MetricsView, peers: Map<PeerId, PeerView>, p: PeerId, info: PeerView)
    requires
        series_match(m, peers),
        peers.contains_key(p),
        peers[p].labels_match(info),
    ensures
        series_match(m, peers.insert(p, info)),
{
    let known = peers.insert(p, info);
    assert forall|k: LabelsView| #[trigger]
        m.discovered_peers.contains_key(k) == labels_of_peer(m.slots, known, k) by {
        assert(m.discovered_peers.contains_key(k) == labels_of_peer(m.slots, peers, k));
        if labels_of_peer(m.slots, peers, k) {
            let q = choose|q: PeerId| #[trigger]
                m.slots.contains_key(q) && k == peer_labels(q, m.slots[q], peers[q]);
            assert(peer_labels(q, m.slots[q], peers[q]) =~= peer_labels(q, m.slots[q], known[q]));
            assert(m.slots.contains_key(q) && k == peer_labels(q, m.slots[q], known[q]));
        }
        if labels_of_peer(m.slots, known, k) {
            let q = choose|q: PeerId| #[trigger]
                m.slots.contains_key(q) && k == peer_labels(q, m.slots[q], known[q]);
            assert(peer_labels(q, m.slots[q], peers[q]) =~= peer_labels(q, m.slots[q], known[q]));
            assert(m.slots.contains_key(q) && k == peer_labels(q, m.slots[q], peers[q]));
        }
    }
}

} // verus!
