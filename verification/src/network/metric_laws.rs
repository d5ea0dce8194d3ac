//! What the metrics show, and what a node says of itself, call by call.

use vstd::prelude::*;
use vstd::string::*;

use crate::engine::event::PeerId;
use crate::network::channel::{Channel, ChannelNames};
use crate::network::config::{topic_names, Config, NetworkIdentity};
use crate::network::metrics::{
    lemma_lowest_free, lowest_free, mesh_labels, peer_labels, with_topics, without_topics,
    LabelsView, Metrics, Slots, MAX_PEER_SLOTS,
};
use crate::network::peer::{
    address_text, peer_text, text_view, LocalNodeInfo, PeerInfo, PeerType, PeerView, Score,
};
use crate::text::{decimal, texts};
use crate::votekeeper::keeper::lemma_push_contains;

verus! {

/// The labels that a peer is shown under: its slot, its moniker, its identifier,
/// its highest role, and its consensus address or that it has none.
pub open spec fn shown_as(p: PeerId, slot: usize, info: PeerView, k: LabelsView) -> bool {
    &&& k.len() == 5
    &&& k[0] == ("slot"@, decimal(slot as nat))
    &&& k[1] == ("peer_moniker"@, info.moniker)
    &&& k[2] == ("peer_id"@, peer_text(p))
    &&& k[3].0 == "peer_type"@
    &&& info.peer_type.validator ==> k[3].1 == "validator"@
    &&& !info.peer_type.validator && info.peer_type.persistent ==> k[3].1 == "persistent_peer"@
    &&& !info.peer_type.validator && !info.peer_type.persistent ==> k[3].1 == "full_node"@
    &&& k[4].0 == "consensus_address"@
    &&& info.consensus_address matches Some(a) ==> k[4].1 == a
    &&& info.consensus_address is None ==> k[4].1 == "none"@
}

proof fn lemma_shown(p: PeerId, slot: usize, info: PeerView, k: LabelsView)
    ensures
        shown_as(p, slot, info, k) == (k == peer_labels(p, slot, info)),
{
    if shown_as(p, slot, info, k) {
        assert(k =~= peer_labels(p, slot, info));
    }
}

/// Whether some peer has the slot `n`.
pub open spec fn is_taken(slots: Map<PeerId, usize>, n: int) -> bool {
    exists|p: PeerId| #[trigger] slots.contains_key(p) && slots[p] == n
}

proof fn lemma_lowest(slots: Map<PeerId, usize>, max: usize, from: int)
    requires
        0 <= from,
    ensures
        match lowest_free(slots, max, from) {
            Some(s) => from <= s < max && forall|n: int|
                from <= n < s ==> #[trigger] is_taken(slots, n),
            None => forall|n: int|
                from <= n < max ==> #[trigger] is_taken(slots, n),
        },
    decreases max - from,
{
    if from < max {
        lemma_lowest(slots, max, from + 1);
    }
}

/// A peer keeps the slot that it has. Otherwise it gets the lowest that is free, and
/// none only where all are taken. No other peer's slot changes.
pub proof fn law_lowest_free_slot_is_assigned(
    slots: &mut Slots,
    p: PeerId,
    r: Option<usize>,
    other: PeerId,
    n: usize,
)
    requires
        call_ensures(Slots::assign, (slots, p), r),
        other != p,
        n < old(slots).max,
    ensures
        old(slots).held@.contains_key(p) ==> r == Some(old(slots).held@[p]),
        r matches Some(s) ==> {
            &&& final(slots).held@.contains_key(p) && final(slots).held@[p] == s
            &&& !old(slots).held@.contains_key(p) ==> s < old(slots).max && (old(
                slots,
            ).held@.contains_key(other) ==> old(slots).held@[other] != s) && (n < s ==> is_taken(
                old(slots).held@,
                n as int,
            ))
        },
        r is None ==> !final(slots).held@.contains_key(p) && is_taken(old(slots).held@, n as int),
        final(slots).held@.contains_key(other) == old(slots).held@.contains_key(other),
        old(slots).held@.contains_key(other) ==> final(slots).held@[other] == old(slots).held@[other],
{
    lemma_lowest_free(old(slots).held@, old(slots).max, 0);
    lemma_lowest(old(slots).held@, old(slots).max, 0);
}

/// A slot that is given back is free, and was that of its peer.
pub proof fn law_released_slot_is_free(slots: &mut Slots, p: PeerId, r: Option<usize>, other: PeerId)
    requires
        call_ensures(Slots::release, (slots, &p), r),
        other != p,
    ensures
        r is Some == old(slots).held@.contains_key(p),
        r matches Some(s) ==> s == old(slots).held@[p],
        !final(slots).held@.contains_key(p),
        final(slots).held@.contains_key(other) == old(slots).held@.contains_key(other),
{
}

/// A new peer is shown under its labels with its score, where it has a slot or one
/// is free, and other series stay.
pub proof fn law_new_peer_is_shown(
    metrics: &mut Metrics,
    p: PeerId,
    info: PeerInfo,
    k: LabelsView,
    other: LabelsView,
    slot: usize,
)
    requires
        call_ensures(Metrics::record_new_peer, (metrics, &p, &info), ()),
        final(metrics)@.slots.contains_key(p),
        slot == final(metrics)@.slots[p],
        shown_as(p, slot, info@, k),
        other != k,
    ensures
        final(metrics)@.discovered_peers.contains_key(k),
        final(metrics)@.discovered_peers[k] == info.score.whole,
        final(metrics)@.discovered_peers.contains_key(other) == old(
            metrics,
        )@.discovered_peers.contains_key(other),
        final(metrics)@.explicit_peers == old(metrics)@.explicit_peers,
        final(metrics)@.peer_mesh_membership == old(metrics)@.peer_mesh_membership,
        final(metrics)@.local_node_info == old(metrics)@.local_node_info,
{
    lemma_shown(p, slot, info@, k);
    lemma_lowest_free(old(metrics)@.slots, MAX_PEER_SLOTS, 0);
}

/// There are a hundred slots, and a new peer goes without only where all are taken.
pub proof fn law_new_peer_gets_a_slot(metrics: &mut Metrics, p: PeerId, info: PeerInfo, n: usize)
    requires
        call_ensures(Metrics::record_new_peer, (metrics, &p, &info), ()),
        n < 100,
    ensures
        final(metrics)@.slots.contains_key(p) || is_taken(old(metrics)@.slots, n as int),
{
    lemma_lowest(old(metrics)@.slots, MAX_PEER_SLOTS, 0);
}

/// A peer that is shown is shown under its new labels with its new score, and no
/// longer under the old ones where they differ; the call says whether its labels
/// have changed. One without a slot is not shown.
pub proof fn law_series_moves_with_the_labels(
    metrics: &mut Metrics,
    p: PeerId,
    was: PeerInfo,
    info: PeerInfo,
    r: bool,
    before: LabelsView,
    k: LabelsView,
)
    requires
        call_ensures(Metrics::update_peer_labels, (metrics, &p, &was, &info), r),
    ensures
        !old(metrics)@.slots.contains_key(p) ==> !r && final(metrics)@ == old(metrics)@,
        old(metrics)@.slots.contains_key(p) && shown_as(p, old(metrics)@.slots[p], info@, k)
            && shown_as(p, old(metrics)@.slots[p], was@, before) ==> {
            &&& final(metrics)@.discovered_peers.contains_key(k)
            &&& final(metrics)@.discovered_peers[k] == info.score.whole
            &&& before != k ==> !final(metrics)@.discovered_peers.contains_key(before) && r
            &&& final(metrics)@.slots == old(metrics)@.slots
        },
        r ==> was.moniker@ != info.moniker@ || was.peer_type != info.peer_type || text_view(
            was.consensus_address,
        ) != text_view(info.consensus_address),
{
    if old(metrics)@.slots.contains_key(p) {
        lemma_shown(p, old(metrics)@.slots[p], info@, k);
        lemma_shown(p, old(metrics)@.slots[p], was@, before);
        if was@.labels_match(info@) {
            assert(peer_labels(p, old(metrics)@.slots[p], was@) =~= peer_labels(
                p,
                old(metrics)@.slots[p],
                info@,
            ));
        }
    }
}

/// A peer that leaves gives its slot back, and is not shown any more.
pub proof fn law_peer_that_leaves_is_not_shown(
    metrics: &mut Metrics,
    p: PeerId,
    info: PeerInfo,
    k: LabelsView,
    other: PeerId,
)
    requires
        call_ensures(Metrics::free_slot, (metrics, &p, &info), ()),
        other != p,
    ensures
        !final(metrics)@.slots.contains_key(p),
        final(metrics)@.slots.contains_key(other) == old(metrics)@.slots.contains_key(other),
        old(metrics)@.slots.contains_key(p) && shown_as(p, old(metrics)@.slots[p], info@, k)
            ==> !final(metrics)@.discovered_peers.contains_key(k),
        !old(metrics)@.slots.contains_key(p) ==> final(metrics)@ == old(metrics)@,
        final(metrics)@.explicit_peers == old(metrics)@.explicit_peers,
{
    if old(metrics)@.slots.contains_key(p) {
        lemma_shown(p, old(metrics)@.slots[p], info@, k);
    }
}

proof fn lemma_without(
    mesh: Map<LabelsView, i64>,
    p: PeerId,
    moniker: Seq<char>,
    topics: Seq<Seq<char>>,
    keep: Seq<Seq<char>>,
    topic: Seq<char>,
)
    ensures
        without_topics(mesh, p, moniker, topics, keep).contains_key(mesh_labels(p, moniker, topic)) == (
        mesh.contains_key(mesh_labels(p, moniker, topic)) && !(topics.contains(topic)
            && !keep.contains(topic))),
    decreases topics.len(),
{
    if topics.len() > 0 {
        let rest = topics.drop_last();
        lemma_without(mesh, p, moniker, rest, keep, topic);
        lemma_push_contains(rest, topics.last(), topic);
        assert(rest.push(topics.last()) =~= topics);
        if topics.last() != topic {
            assert(mesh_labels(p, moniker, topic)[2].1 == topic);
            assert(mesh_labels(p, moniker, topics.last())[2].1 == topics.last());
        }
    }
}

proof fn lemma_with(
    mesh: Map<LabelsView, i64>,
    p: PeerId,
    moniker: Seq<char>,
    topics: Seq<Seq<char>>,
    known: Seq<Seq<char>>,
    topic: Seq<char>,
)
    ensures
        with_topics(mesh, p, moniker, topics, known).contains_key(mesh_labels(p, moniker, topic)) == (
        mesh.contains_key(mesh_labels(p, moniker, topic)) || (topics.contains(topic)
            && !known.contains(topic))),
    decreases topics.len(),
{
    if topics.len() > 0 {
        let rest = topics.drop_last();
        lemma_with(mesh, p, moniker, rest, known, topic);
        lemma_push_contains(rest, topics.last(), topic);
        assert(rest.push(topics.last()) =~= topics);
        if topics.last() != topic {
            assert(mesh_labels(p, moniker, topic)[2].1 == topic);
            assert(mesh_labels(p, moniker, topics.last())[2].1 == topics.last());
        }
    }
}

/// The meshes that a peer is shown in follow its topics: it is shown in those that
/// it has joined, no longer in those that it has left, and in the others as before.
/// Its score is shown. This needs a slot; without one it fails and shows nothing.
pub proof fn law_meshes_follow_the_topics(
    metrics: &mut Metrics,
    p: PeerId,
    info: PeerInfo,
    score: Score,
    topics: Vec<String>,
    r: Result<(), ()>,
    topic: Seq<char>,
    k: LabelsView,
    labels: LabelsView,
)
    requires
        call_ensures(Metrics::update_peer_metrics, (metrics, &p, &info, score, Some(&topics)), r),
        labels.len() == 3,
        labels[0] == ("peer_id"@, peer_text(p)),
        labels[1] == ("peer_moniker"@, info.moniker@),
        labels[2] == ("topic"@, topic),
    ensures
        r is Ok == final(metrics)@.slots.contains_key(p),
        r is Err ==> final(metrics)@ == old(metrics)@,
        r is Ok ==> {
            let now = texts(topics@).contains(topic);
            let was = texts(info.topics@).contains(topic);
            &&& final(metrics)@.peer_mesh_membership.contains_key(labels) == ((now && !was) || (old(
                metrics,
            )@.peer_mesh_membership.contains_key(labels) && !(was && !now)))
            &&& shown_as(p, final(metrics)@.slots[p], info@, k) ==> final(metrics)@.discovered_peers.contains_key(k) && final(metrics)@.discovered_peers[k] == score.whole
        },
{
    assert(labels =~= mesh_labels(p, info.moniker@, topic));
    let mesh = old(metrics)@.peer_mesh_membership;
    lemma_lowest_free(old(metrics)@.slots, MAX_PEER_SLOTS, 0);
    lemma_without(mesh, p, info.moniker@, texts(info.topics@), texts(topics@), topic);
    lemma_with(
        without_topics(mesh, p, info.moniker@, texts(info.topics@), texts(topics@)),
        p,
        info.moniker@,
        texts(topics@),
        texts(info.topics@),
        topic,
    );
    if final(metrics)@.slots.contains_key(p) {
        lemma_shown(p, final(metrics)@.slots[p], info@, k);
    }
}

/// An explicit peer is shown as one, by its identifier and moniker, from when it
/// becomes one until it is one no longer.
pub proof fn law_explicit_peers_are_shown(
    metrics: &mut Metrics,
    later: &mut Metrics,
    p: PeerId,
    moniker: String,
    k: LabelsView,
    other: LabelsView,
)
    requires
        call_ensures(Metrics::record_explicit_peer, (metrics, &p, &moniker), ()),
        call_ensures(Metrics::mark_explicit_peer_stale, (later, &p, &moniker), ()),
        old(later)@ == final(metrics)@,
        k.len() == 2,
        k[0] == ("peer_id"@, peer_text(p)),
        k[1] == ("peer_moniker"@, moniker@),
        other != k,
    ensures
        final(metrics)@.explicit_peers.contains_key(k) && final(metrics)@.explicit_peers[k] == 1,
        final(metrics)@.explicit_peers.contains_key(other) == old(
            metrics,
        )@.explicit_peers.contains_key(other),
        !final(later)@.explicit_peers.contains_key(k),
        final(later)@.explicit_peers.contains_key(other) == old(metrics)@.explicit_peers.contains_key(
            other,
        ),
        final(metrics)@.discovered_peers == old(metrics)@.discovered_peers,
{
    assert(k =~= crate::network::metrics::explicit_labels(p, moniker@));
}

/// This node is shown by its identifier, the address that it listens on, and its
/// consensus address, with one where it is a validator and zero where it is not.
pub proof fn law_local_node_is_shown(metrics: &mut Metrics, info: LocalNodeInfo, k: LabelsView)
    requires
        call_ensures(Metrics::set_local_node_info, (metrics, &info), ()),
        k.len() == 3,
        k[0] == ("peer_id"@, peer_text(info.peer_id)),
        k[1] == ("listen_addr"@, address_text(info.listen_addr@)),
        k[2].0 == "consensus_address"@,
        info.consensus_address matches Some(a) ==> k[2].1 == a@,
        info.consensus_address is None ==> k[2].1 == "none"@,
    ensures
        final(metrics)@.local_node_info.contains_key(k),
        final(metrics)@.local_node_info[k] == if info.is_validator {
            1int
        } else {
            0
        },
        final(metrics)@.discovered_peers == old(metrics)@.discovered_peers,
{
    assert(k =~= crate::network::metrics::local_labels(info@));
}

/// A node says of itself what it is configured with and who it is. It is subscribed
/// to the channels of consensus where consensus is on, and not a validator yet.
pub proof fn law_node_knows_itself<K>(
    config: Config,
    identity: NetworkIdentity<K>,
    peer_id: PeerId,
    r: LocalNodeInfo,
    topic: Seq<char>,
)
    requires
        call_ensures(Config::local_node_info::<K>, (&config, &identity, peer_id), r),
    ensures
        r@.moniker == identity.moniker@,
        r@.peer_id == peer_id,
        r@.listen_addr == config.listen_addr@,
        !r@.is_validator,
        r@.persistent_peers_only == config.persistent_peers_only,
        identity.validator is None ==> r@.consensus_address is None && r@.proof_bytes is None,
        identity.validator matches Some(v) ==> r@.consensus_address == Some(v.address@)
            && r@.proof_bytes == (match v.proof_bytes {
            Some(b) => Some(b@),
            None => None,
        }),
        r@.subscribed_topics.contains(topic) == (config.enable_consensus && (topic
            == config.channel_names.consensus@ || topic == config.channel_names.liveness@ || topic
            == config.channel_names.proposal_parts@)),
{
    let channels = seq![Channel::Consensus, Channel::Liveness, Channel::ProposalParts];
    if config.enable_consensus {
        lemma_topic_names(config.channel_names, channels, topic);
        let found = exists|i: int|
            0 <= i < channels.len() && config.channel_names.name(#[trigger] channels[i]) == topic;
        if found {
            let i = choose|i: int|
                0 <= i < channels.len() && config.channel_names.name(#[trigger] channels[i]) == topic;
            assert(i == 0 || i == 1 || i == 2);
        }
        assert(config.channel_names.name(channels[0]) == config.channel_names.consensus@);
        assert(config.channel_names.name(channels[1]) == config.channel_names.liveness@);
        assert(config.channel_names.name(channels[2]) == config.channel_names.proposal_parts@);
    }
}

proof fn lemma_topic_names(names: ChannelNames, channels: Seq<Channel>, topic: Seq<char>)
    ensures
        topic_names(names, channels).contains(topic) == exists|i: int|
            0 <= i < channels.len() && names.name(#[trigger] channels[i]) == topic,
    decreases channels.len(),
{
    if channels.len() > 0 {
        let rest = channels.drop_last();
        lemma_topic_names(names, rest, topic);
        lemma_push_contains(topic_names(names, rest), names.name(channels.last()), topic);
        if exists|i: int| 0 <= i < rest.len() && names.name(#[trigger] rest[i]) == topic {
            let i = choose|i: int| 0 <= i < rest.len() && names.name(#[trigger] rest[i]) == topic;
            assert(channels[i] == rest[i]);
        }
        if exists|i: int| 0 <= i < channels.len() && names.name(#[trigger] channels[i]) == topic {
            let i = choose|i: int|
                0 <= i < channels.len() && names.name(#[trigger] channels[i]) == topic;
            if i < rest.len() {
                assert(rest[i] == channels[i]);
            }
        }
        assert(channels[channels.len() - 1] == channels.last());
    }
}

} // verus!
