//! What is written of a node, of its peers and of channels.

use vstd::prelude::*;
use vstd::string::*;

use crate::bytes::SHORT_BYTES_MAX;
use crate::discovery::state::ConnectionDirection;
use crate::engine::event::PeerId;
use crate::network::channel::{Channel, ChannelNames};
use crate::network::config::{topic_names, topic_names_of};
use crate::network::multiaddr::{binary, multiaddr_text};
use crate::network::peer::{
    address_text, bracketed, peer_id_text, peer_text, text_or_none, LocalNodeInfo, PeerInfo,
};
use crate::network::report::{header, is_report, monikers};
use crate::network::state::{work, Action, State};
use crate::text::{
    bytes_before, is_sort_order, is_sorted_version, joined, signed_decimal, sorted_texts, text_keys,
    texts,
};
use crate::value_laws::{lemma_before_is_strict, lemma_order_is_complete};

verus! {

/// Sorting texts keeps each of them, adds none and leaves none before one that its
/// bytes come after.
pub proof fn law_sorted_texts(items: Vec<String>, r: Vec<String>, t: Seq<char>, i: int, j: int)
    requires
        call_ensures(sorted_texts, (&items,), r),
    ensures
        r@.len() == items@.len(),
        texts(r@).contains(t) == texts(items@).contains(t),
        0 <= i < j < r@.len() ==> !bytes_before(
            vstd::utf8::encode_utf8(r@[j]@),
            vstd::utf8::encode_utf8(r@[i]@),
        ),
{
    let all = texts(items@);
    let out = texts(r@);
    let keys = text_keys(all);
    let order = choose|order: Seq<usize>| #[trigger]
        is_sort_order(keys, order) && out == order.map_values(|k: usize| all[k as int]);
    assert(is_sort_order(keys, order));
    if out.contains(t) {
        let k = choose|k: int| 0 <= k < out.len() && out[k] == t;
        assert(order[k] < all.len());
        assert(all[order[k] as int] == t);
    }
    if all.contains(t) {
        let k = choose|k: int| 0 <= k < all.len() && all[k] == t;
        lemma_order_is_complete(order, all.len(), k);
        let m = choose|m: int| 0 <= m < order.len() && order[m] == k;
        assert(out[m] == t);
    }
    if 0 <= i < j < r@.len() {
        assert(order[i] < all.len() && order[j] < all.len());
        assert(out[i] == all[order[i] as int] && out[j] == all[order[j] as int]);
        assert(out[i] == r@[i]@ && out[j] == r@[j]@);
        lemma_before_is_strict(keys[order[i] as int], keys[order[j] as int]);
        lemma_before_is_strict(keys[order[i] as int], keys[order[i] as int]);
    }
}

/// Whether `part` lists `topics`, sorted, between brackets.
pub open spec fn lists_topics(topics: Seq<Seq<char>>, part: Seq<char>) -> bool {
    exists|sorted: Seq<Seq<char>>| #[trigger]
        is_sorted_version(topics, sorted) && part == "["@ + joined(sorted, ","@) + "]"@
}

/// Whether `parts` are those of the description of a peer.
pub open spec fn are_parts_of_peer(p: PeerInfo, id: PeerId, parts: Seq<Seq<char>>) -> bool {
    &&& parts.len() == 9
    &&& multiaddr_text(binary(p.address@)) matches Some(t) ==> parts[0] == t
    &&& parts[1] == p.moniker@
    &&& p.peer_type.validator ==> parts[2] == "validator"@
    &&& p.peer_type.persistent && !p.peer_type.validator ==> parts[2] == "persistent_peer"@
    &&& !p.peer_type.persistent && !p.peer_type.validator ==> parts[2] == "full_node"@
    &&& id.len <= SHORT_BYTES_MAX ==> (peer_id_text(id.seq()) matches Some(t) ==> parts[3] == t)
    &&& p.consensus_address matches Some(a) ==> parts[4] == a@
    &&& p.consensus_address is None ==> parts[4] == "none"@
    &&& lists_topics(texts(p.topics@), parts[5])
    &&& p.connection_direction == Some(ConnectionDirection::Outbound) ==> parts[6] == "outbound"@
    &&& p.connection_direction == Some(ConnectionDirection::Inbound) ==> parts[6] == "inbound"@
    &&& p.connection_direction is None ==> parts[6] == "??"@
    &&& parts[7] == signed_decimal(p.score.whole as int)
    &&& parts[8] == (if p.is_explicit {
        "explicit"@
    } else {
        "-"@
    })
}

/// The description of a peer holds its address, moniker, role, identifier,
/// consensus address, topics, direction, score and whether it is explicit.
pub proof fn law_peer_is_described(p: PeerInfo, id: PeerId, r: String)
    requires
        call_ensures(PeerInfo::format_with_peer_id, (&p, &id), r),
    ensures
        exists|parts: Seq<Seq<char>>| #[trigger]
            are_parts_of_peer(p, id, parts) && r@ == joined(parts, ", "@),
{
    let sorted = choose|sorted: Seq<Seq<char>>| #[trigger]
        is_sorted_version(p@.topics, sorted) && r@ == p@.line(id, sorted);
    assert(is_sorted_version(texts(p.topics@), sorted));
    let parts = seq![
        address_text(p@.address),
        p@.moniker,
        p.peer_type.role(),
        peer_text(id),
        text_or_none(p@.consensus_address),
        bracketed(sorted),
        match p.connection_direction {
            Some(ConnectionDirection::Outbound) => "outbound"@,
            Some(ConnectionDirection::Inbound) => "inbound"@,
            None => "??"@,
        },
        signed_decimal(p.score.whole as int),
        if p.is_explicit { "explicit"@ } else { "-"@ },
    ];
    assert(p@.line(id, sorted) == joined(parts, ", "@));
    assert(lists_topics(texts(p.topics@), parts[5]));
    assert(are_parts_of_peer(p, id, parts) && r@ == joined(parts, ", "@));
}

/// Whether `parts` are those of the description of a node by itself.
pub open spec fn are_parts_of_node(n: LocalNodeInfo, parts: Seq<Seq<char>>) -> bool {
    &&& parts.len() == 8
    &&& multiaddr_text(binary(n.listen_addr@)) matches Some(t) ==> parts[0] == t
    &&& parts[1] == n.moniker@
    &&& parts[2] == (if n.is_validator {
        "validator"@
    } else {
        "full_node"@
    })
    &&& n.peer_id.len <= SHORT_BYTES_MAX ==> (peer_id_text(n.peer_id.seq()) matches Some(t) ==> parts[3]
        == t)
    &&& n.consensus_address matches Some(a) ==> parts[4] == a@
    &&& n.consensus_address is None ==> parts[4] == "none"@
    &&& lists_topics(texts(n.subscribed_topics@), parts[5])
    &&& parts[6] == (if n.persistent_peers_only {
        "persistent_only"@
    } else {
        "open"@
    })
    &&& parts[7] == "me"@
}

/// The description of a node by itself.
pub proof fn law_node_is_described(n: LocalNodeInfo, r: String)
    requires
        call_ensures(LocalNodeInfo::to_text, (&n,), r),
    ensures
        exists|parts: Seq<Seq<char>>| #[trigger]
            are_parts_of_node(n, parts) && r@ == joined(parts, ", "@),
{
    let sorted = choose|sorted: Seq<Seq<char>>| #[trigger]
        is_sorted_version(n@.subscribed_topics, sorted) && r@ == n@.line(sorted);
    assert(is_sorted_version(texts(n.subscribed_topics@), sorted));
    let parts = seq![
        address_text(n@.listen_addr),
        n@.moniker,
        if n.is_validator { "validator"@ } else { "full_node"@ },
        peer_text(n.peer_id),
        text_or_none(n@.consensus_address),
        bracketed(sorted),
        if n.persistent_peers_only { "persistent_only"@ } else { "open"@ },
        "me"@,
    ];
    assert(n@.line(sorted) == joined(parts, ", "@));
    assert(lists_topics(texts(n.subscribed_topics@), parts[5]));
    assert(are_parts_of_node(n, parts) && r@ == joined(parts, ", "@));
}

/// Whether `lines` are a report: the names of the columns, this node, and one line
/// for each peer.
pub open spec fn describes<E, C>(s: State<E, C>, p: PeerId, lines: Seq<Seq<char>>) -> bool {
    &&& lines.len() == s.peer_info.entries@.len() + 2
    &&& lines[0] == "Address, Moniker, Type, PeerId, ConsensusAddr, Mesh, Dir, Score"@
    &&& s@.local_node.described_by(lines[1])
    &&& s@.peers.contains_key(p) ==> exists|k: int|
        2 <= k < lines.len() && s@.peers[p].described_by(p, #[trigger] lines[k])
}

/// The report of the network has a line for this node and one for every peer.
pub proof fn law_every_peer_is_reported<E, C>(s: &State<E, C>, r: String, p: PeerId)
    requires
        s.wf(),
        call_ensures(State::<E, C>::format_peer_info, (s,), r),
    ensures
        exists|lines: Seq<Seq<char>>| #[trigger] describes(*s, p, lines) && r@ == joined(lines, "\n"@),
{
    let ids = s.peer_info.keys();
    let lines = choose|lines: Seq<Seq<char>>| #[trigger]
        is_report(s@, ids, lines) && r@ == joined(lines, "\n"@);
    let keys = text_keys(monikers(s@.peers, ids));
    let order = choose|order: Seq<usize>|
        {
            &&& #[trigger] is_sort_order(keys, order)
            &&& lines.len() == ids.len() + 2
            &&& lines[0] == header()
            &&& s@.local_node.described_by(lines[1])
            &&& forall|k: int|
                0 <= k < ids.len() ==> s@.peers[ids[order[k] as int]].described_by(
                    ids[order[k] as int],
                    #[trigger] lines[k + 2],
                )
        };
    assert(is_sort_order(keys, order));
    if s@.peers.contains_key(p) {
        assert(s.peer_info.has(p));
        let i = s.peer_info.index_of(p);
        assert(ids[i] == p);
        lemma_order_is_complete(order, ids.len(), i);
        let k = choose|k: int| 0 <= k < order.len() && order[k] == i;
        assert(s@.peers[p].described_by(p, lines[k + 2]));
    }
    assert(describes(*s, p, lines));
}

/// Where names of channels differ, the topic of a channel stands for that channel,
/// as text and as bytes.
pub proof fn law_topic_stands_for_its_channel(
    names: &ChannelNames,
    channel: Channel,
    topic: String,
    name: &str,
    bytes: &[u8],
    by_text: Option<Channel>,
    by_bytes: Option<Channel>,
)
    requires
        call_ensures(Channel::as_str, (&channel, names), name),
        topic@ == name@,
        bytes@ == vstd::utf8::encode_utf8(name@),
        call_ensures(Channel::from_gossipsub_topic, (&topic, names), by_text),
        call_ensures(Channel::from_broadcast_topic, (bytes, names), by_bytes),
        names.consensus@ != names.liveness@,
        names.consensus@ != names.proposal_parts@,
        names.consensus@ != names.sync@,
        names.liveness@ != names.proposal_parts@,
        names.liveness@ != names.sync@,
        names.proposal_parts@ != names.sync@,
    ensures
        by_text == Some(channel),
        by_bytes == Some(channel),
{
    assert forall|a: Seq<char>, b: Seq<char>| #[trigger]
        vstd::utf8::encode_utf8(a) == #[trigger] vstd::utf8::encode_utf8(b) implies a == b by {
        vstd::utf8::encode_utf8_decode_utf8(a);
        vstd::utf8::encode_utf8_decode_utf8(b);
    }
}

/// A topic that is the name of no channel stands for none.
pub proof fn law_other_topic_stands_for_none(
    names: &ChannelNames,
    topic: String,
    by_text: Option<Channel>,
)
    requires
        call_ensures(Channel::from_gossipsub_topic, (&topic, names), by_text),
    ensures
        by_text is None <==> topic@ != names.consensus@ && topic@ != names.liveness@ && topic@
            != names.proposal_parts@ && topic@ != names.sync@,
{
}

/// Channels have positions of their own, and those of consensus are all but the one
/// of sync.
pub proof fn law_channels_are_told_apart(
    a: Channel,
    b: Channel,
    i: u8,
    j: u8,
    consensus: Vec<Channel>,
)
    requires
        call_ensures(Channel::index, (&a,), i),
        call_ensures(Channel::index, (&b,), j),
        call_ensures(Channel::consensus, (), consensus),
    ensures
        i == j <==> a == b,
        i < 4,
        consensus@.contains(a) <==> a != Channel::Sync,
        consensus@.no_duplicates(),
{
    assert(consensus@[0] == Channel::Consensus);
    assert(consensus@[1] == Channel::Liveness);
    assert(consensus@[2] == Channel::ProposalParts);
}

/// The names of channels are those of each of them, and each once.
pub proof fn law_channel_names_are_listed(
    names: &ChannelNames,
    channels: Vec<Channel>,
    r: Vec<String>,
    i: int,
    name: &str,
    t: Seq<char>,
)
    requires
        call_ensures(topic_names_of, (names, &channels), r),
        0 <= i < channels@.len(),
        call_ensures(Channel::as_str, (&channels@[i], names), name),
    ensures
        texts(r@).contains(name@),
        texts(r@).no_duplicates(),
        texts(r@).contains(t) ==> t == names.consensus@ || t == names.liveness@ || t
            == names.proposal_parts@ || t == names.sync@,
{
    lemma_topic_names(*names, channels@, i, t);
}

proof fn lemma_topic_names(names: ChannelNames, channels: Seq<Channel>, i: int, t: Seq<char>)
    ensures
        0 <= i < channels.len() ==> topic_names(names, channels).contains(
            names.name(channels[i]),
        ),
        topic_names(names, channels).no_duplicates(),
        topic_names(names, channels).contains(t) ==> t == names.consensus@ || t
            == names.liveness@ || t == names.proposal_parts@ || t == names.sync@,
    decreases channels.len(),
{
    if channels.len() > 0 {
        let rest = topic_names(names, channels.drop_last());
        let all = topic_names(names, channels);
        let name = names.name(channels.last());
        lemma_topic_names(names, channels.drop_last(), i, t);
        if !rest.contains(name) {
            assert(all[rest.len() as int] == name);
            if rest.contains(t) {
                let k = choose|k: int| 0 <= k < rest.len() && rest[k] == t;
                assert(all[k] == t);
            }
            if 0 <= i < channels.len() - 1 {
                let x = names.name(channels[i]);
                assert(channels.drop_last()[i] == channels[i]);
                let k = choose|k: int| 0 <= k < rest.len() && rest[k] == x;
                assert(all[k] == x);
            }
        } else if 0 <= i < channels.len() - 1 {
            assert(channels.drop_last()[i] == channels[i]);
        }
    }
}

/// An explicit peer is made one no longer where explicit peering and gossip are on,
/// and gossip is told; other peers, and a peer that is none, stay as they are.
pub proof fn law_explicit_peer_is_removed<E, C>(
    s: &mut State<E, C>,
    p: PeerId,
    r: Vec<Action>,
    q: PeerId,
)
    requires
        old(s).wf(),
        call_ensures(State::<E, C>::remove_explicit_peer_from_gossipsub, (s, &p), r),
    ensures
        ({
            let before = old(s)@;
            let after = final(s)@;
            let was = before.peers.contains_key(p) && before.peers[p].is_explicit
                && old(s).enable_explicit_peering && old(s).gossipsub;
            &&& was ==> r@.len() == 1 && r@[0] == Action::RemoveExplicitPeer(p)
                && after.peers.contains_key(p) && !after.peers[p].is_explicit
            &&& !was ==> r@.len() == 0 && after.peers == before.peers
            &&& after.peers.contains_key(q) == before.peers.contains_key(q)
            &&& before.peers.contains_key(q) ==> after.peers[q].moniker == before.peers[q].moniker
                && after.peers[q].peer_type == before.peers[q].peer_type
            &&& q != p && before.peers.contains_key(q) ==> after.peers[q] == before.peers[q]
        }),
{
    let actions = work(r@);
    assert(actions.len() == r@.len());
    if r@.len() == 1 {
        assert(actions[0] == r@[0]@);
    }
}

} // verus!
