//! What holds of discovery across calls.

use vstd::prelude::*;

use crate::discovery::state::{
    addresses_match, first_match, first_with_peer, handler_for, is_at, without_connection,
    ActionView, AddressView, BootstrapView, ConnectionId, DiscoveryView, NetworkEvent, State,
};
use crate::engine::event::PeerId;

verus! {

/// Every listed peer has at least one connection, no more than allowed, none
/// of them twice.
pub open spec fn connections_consistent<E>(d: DiscoveryView<E>) -> bool {
    forall|p: PeerId| #[trigger]
        d.active.contains_key(p) ==> {
            &&& 1 <= d.active[p].len() <= d.config.max_connections_per_peer
            &&& d.active[p].no_duplicates()
        }
}

/// No peer is both outbound and inbound, and there are no more inbound peers
/// than allowed.
pub open spec fn peers_consistent<E>(d: DiscoveryView<E>) -> bool {
    &&& forall|p: PeerId| #[trigger] d.inbound.contains(p) ==> !d.outbound.contains_key(p)
    &&& d.inbound.finite()
    &&& d.inbound.len() <= d.config.num_inbound_peers
}

/// No two configured peers have one identifier.
pub open spec fn identities_distinct(nodes: Seq<BootstrapView>) -> bool {
    forall|i: int, j: int|
        #![trigger nodes[i], nodes[j]]
        0 <= i < j < nodes.len() && nodes[i].peer_id is Some ==> nodes[i].peer_id != nodes[j].peer_id
}

proof fn lemma_without_connection(ids: Seq<ConnectionId>, c: ConnectionId)
    ensures
        without_connection(ids, c).len() <= ids.len(),
        forall|x: ConnectionId| #[trigger]
            without_connection(ids, c).contains(x) ==> ids.contains(x) && x != c,
        ids.no_duplicates() ==> without_connection(ids, c).no_duplicates(),
    decreases ids.len(),
{
    if ids.len() > 0 {
        let rest = ids.drop_last();
        lemma_without_connection(rest, c);
        let s = without_connection(rest, c);
        let t = without_connection(ids, c);
        assert forall|x: ConnectionId| #[trigger] t.contains(x) implies ids.contains(x) && x != c by {
            let k = choose|k: int| 0 <= k < t.len() && t[k] == x;
            if k < s.len() {
                assert(s[k] == x);
                assert(s.contains(x));
                let m = choose|m: int| 0 <= m < rest.len() && rest[m] == x;
                assert(ids[m] == x);
            } else {
                assert(ids[ids.len() - 1] == x);
            }
        }
        if ids.no_duplicates() {
            assert(rest.no_duplicates());
            assert(!s.contains(ids.last())) by {
                if s.contains(ids.last()) {
                    assert(rest.contains(ids.last()));
                    let m = choose|m: int| 0 <= m < rest.len() && rest[m] == ids.last();
                    assert(ids[m] == ids[ids.len() - 1]);
                }
            }
            assert forall|a: int, b: int| 0 <= a < t.len() && 0 <= b < t.len() && a != b implies t[a]
                != t[b] by {
                if a < s.len() && b < s.len() {
                    assert(s[a] != s[b]);
                } else if a < s.len() {
                    assert(s.contains(s[a]));
                } else if b < s.len() {
                    assert(s.contains(s[b]));
                }
            }
        }
    }
}

/// Taking in a peer keeps the connections of every peer consistent.
pub proof fn law_new_peer_keeps_connections_consistent<E>(
    d: DiscoveryView<E>,
    connection: ConnectionId,
    peer: PeerId,
    listen: Seq<AddressView>,
    record: Option<E>,
    dialed: Option<Seq<AddressView>>,
    we_dialed: bool,
)
    requires
        connections_consistent(d),
        d.config.max_connections_per_peer >= 1,
    ensures
        connections_consistent(d.new_peer(connection, peer, listen, record, dialed, we_dialed).0),
{
    let next = d.new_peer(connection, peer, listen, record, dialed, we_dialed).0;
    assert forall|p: PeerId| #[trigger] next.active.contains_key(p) implies 1 <= next.active[p].len()
        <= next.config.max_connections_per_peer && next.active[p].no_duplicates() by {
        if p != peer {
            assert(d.active.contains_key(p));
        } else if d.active.contains_key(p) {
            let before = d.active[p];
            if next.active[p] != before {
                assert(!before.contains(connection));
                assert(next.active[p] == before.push(connection));
            }
        }
    }
}

/// Closing a connection keeps the connections of every peer consistent, and
/// the closed one is no longer among them.
pub proof fn law_closing_keeps_connections_consistent<E>(
    d: DiscoveryView<E>,
    peer: PeerId,
    connection: ConnectionId,
    was_last: bool,
)
    requires
        connections_consistent(d),
    ensures
        connections_consistent(d.closed(peer, connection, was_last)),
        !d.closed(peer, connection, was_last).is_active(peer, connection),
        !d.closed(peer, connection, was_last).connections.contains_key(connection),
{
    let next = d.closed(peer, connection, was_last);
    lemma_without_connection(d.connections_of(peer), connection);
    assert forall|p: PeerId| #[trigger] next.active.contains_key(p) implies 1 <= next.active[p].len()
        <= next.config.max_connections_per_peer && next.active[p].no_duplicates() by {
        assert(d.active.contains_key(p));
    }
}

/// Taking in a peer keeps outbound and inbound peers apart, and the inbound
/// peers within their number. Without discovery, where peers are classified
/// anew with every connection, this is of a peer that is not classified
/// otherwise already.
pub proof fn law_new_peer_keeps_peers_consistent<E>(
    d: DiscoveryView<E>,
    connection: ConnectionId,
    peer: PeerId,
    listen: Seq<AddressView>,
    record: Option<E>,
    dialed: Option<Seq<AddressView>>,
    we_dialed: bool,
)
    requires
        peers_consistent(d),
        d.config.enabled || d.is_active(peer, connection) || if we_dialed {
            !d.inbound.contains(peer)
        } else {
            !d.outbound.contains_key(peer) || d.inbound.len() >= d.config.num_inbound_peers
        },
    ensures
        peers_consistent(d.new_peer(connection, peer, listen, record, dialed, we_dialed).0),
{
}

/// Closing a connection keeps outbound and inbound peers apart, and after the
/// last connection the peer is neither.
pub proof fn law_closing_keeps_peers_consistent<E>(
    d: DiscoveryView<E>,
    peer: PeerId,
    connection: ConnectionId,
    was_last: bool,
)
    requires
        peers_consistent(d),
    ensures
        peers_consistent(d.closed(peer, connection, was_last)),
        was_last ==> !d.closed(peer, connection, was_last).outbound.contains_key(peer)
            && !d.closed(peer, connection, was_last).inbound.contains(peer),
{
    if d.outbound.contains_key(peer) && d.inbound.contains(peer) {
        assert(!d.outbound.contains_key(peer));
    }
}

/// Making an ephemeral peer inbound, where there is room, keeps the inbound
/// peers within their number and apart from the outbound ones.
pub proof fn law_promotion_keeps_peers_consistent<E>(d: DiscoveryView<E>, peer: PeerId)
    requires
        peers_consistent(d),
        d.is_ephemeral(peer),
        d.inbound.len() < d.config.num_inbound_peers,
    ensures
        peers_consistent(DiscoveryView { inbound: d.inbound.insert(peer), ..d }),
{
}

/// In a full house, evicting one inbound peer makes room for exactly one more.
pub proof fn law_eviction_makes_room<E>(d: DiscoveryView<E>, evicted: PeerId)
    requires
        peers_consistent(d),
        d.inbound.contains(evicted),
        d.inbound.len() == d.config.num_inbound_peers,
    ensures
        d.inbound.remove(evicted).len() + 1 == d.config.num_inbound_peers,
{
}

/// Where only persistent peers are accepted, a peer that is none is not taken
/// in, and its connection is closed.
pub proof fn law_only_persistent_peers_taken_in<E>(
    d: DiscoveryView<E>,
    connection: ConnectionId,
    peer: PeerId,
    listen: Seq<AddressView>,
    record: Option<E>,
    dialed: Option<Seq<AddressView>>,
    we_dialed: bool,
)
    requires
        d.config.persistent_peers_only,
        !d.is_active(peer, connection),
        !d.identified(connection, peer, dialed).is_persistent(peer),
    ensures
        ({
            let (next, already, actions) = d.new_peer(
                connection,
                peer,
                listen,
                record,
                dialed,
                we_dialed,
            );
            &&& next.active == d.active
            &&& next.discovered == d.discovered
            &&& already
            &&& actions == seq![ActionView::QueueClose(peer, connection, None)]
        }),
{
}

proof fn lemma_first_match(
    nodes: Seq<BootstrapView>,
    dialed: Option<Seq<AddressView>>,
    remote: Option<AddressView>,
    i: int,
)
    requires
        0 <= i,
    ensures
        first_match(nodes, dialed, remote, i) matches Some(k) ==> i <= k < nodes.len()
            && nodes[k].peer_id is None && addresses_match(nodes[k].addrs, dialed, remote),
    decreases nodes.len() - i,
{
    if i < nodes.len() && !(nodes[i].peer_id is None && addresses_match(
        nodes[i].addrs,
        dialed,
        remote,
    )) {
        lemma_first_match(nodes, dialed, remote, i + 1);
    }
}

/// A peer is identified as a configured peer only by an address that was
/// dialed, or else by the address that it is connected from: where none of
/// these is an address of a configured peer, nothing is identified, whatever
/// the peer says of itself.
pub proof fn law_no_identification_by_claim<E>(
    d: DiscoveryView<E>,
    connection: ConnectionId,
    peer: PeerId,
    dialed: Option<Seq<AddressView>>,
)
    requires
        forall|i: int|
            0 <= i < d.bootstrap.len() ==> !addresses_match(
                (#[trigger] d.bootstrap[i]).addrs,
                dialed,
                d.remote_of(connection),
            ),
    ensures
        d.identified(connection, peer, dialed) == d,
{
    lemma_first_match(d.bootstrap, dialed, d.remote_of(connection), 0);
}

/// An address enters the routing table only under a peer that is known to be at
/// it, whatever the peer says of itself: one that was dialed for the peer, or the
/// one that it is connected from.
pub proof fn law_routing_addresses_are_owned<E>(
    d: DiscoveryView<E>,
    connection: ConnectionId,
    peer: PeerId,
    listen: Seq<AddressView>,
    record: Option<E>,
    dialed: Option<Seq<AddressView>>,
    we_dialed: bool,
    owner: PeerId,
    addr: AddressView,
)
    requires
        d.new_peer(connection, peer, listen, record, dialed, we_dialed).2.contains(
            ActionView::AddRoutingAddress(owner, addr),
        ),
    ensures
        owner == peer,
        is_at(addr, dialed, d.remote_of(connection)),
{
}

/// Matching a peer keeps the identifiers of the configured peers distinct.
pub proof fn law_identities_stay_distinct<E>(
    d: DiscoveryView<E>,
    connection: ConnectionId,
    peer: PeerId,
    dialed: Option<Seq<AddressView>>,
)
    requires
        identities_distinct(d.bootstrap),
    ensures
        identities_distinct(d.identified(connection, peer, dialed).bootstrap),
{
    let next = d.identified(connection, peer, dialed);
    lemma_first_match(d.bootstrap, dialed, d.remote_of(connection), 0);
    let nodes = next.bootstrap;
    assert forall|i: int, j: int|
        #![trigger nodes[i], nodes[j]]
        0 <= i < j < nodes.len() && nodes[i].peer_id is Some implies nodes[i].peer_id
        != nodes[j].peer_id by {
        assert(d.bootstrap[i].peer_id is Some ==> d.bootstrap[i].peer_id != d.bootstrap[j].peer_id);
        if !d.is_persistent(peer) {
            assert(d.bootstrap[i].peer_id != Some(peer));
            assert(d.bootstrap[j].peer_id != Some(peer));
        }
    }
}

proof fn lemma_first_with_peer(nodes: Seq<BootstrapView>, p: PeerId, i: int)
    requires
        0 <= i,
    ensures
        match first_with_peer(nodes, p, i) {
            Some(k) => i <= k < nodes.len() && nodes[k].peer_id == Some(p),
            None => forall|k: int| i <= k < nodes.len() ==> (#[trigger] nodes[k]).peer_id != Some(p),
        },
    decreases nodes.len() - i,
{
    if i < nodes.len() && nodes[i].peer_id != Some(p) {
        lemma_first_with_peer(nodes, p, i + 1);
    }
}

/// A forgotten peer is no configured peer any more, so that the configured
/// peer can be identified again under another identifier.
pub proof fn law_forgotten_peer_can_be_identified_again<E>(d: DiscoveryView<E>, peer: PeerId)
    requires
        identities_distinct(d.bootstrap),
    ensures
        !d.forgotten(peer).0.is_persistent(peer),
        !d.forgotten(peer).0.discovered.contains_key(peer),
        !d.forgotten(peer).0.signed.contains_key(peer),
{
    let next = d.forgotten(peer).0;
    lemma_first_with_peer(d.bootstrap, peer, 0);
    assert forall|k: int| 0 <= k < next.bootstrap.len() implies (#[trigger] next.bootstrap[k]).peer_id
        != Some(peer) by {
        if let Some(i) = first_with_peer(d.bootstrap, peer, 0) {
            if k < i {
                assert(d.bootstrap[k].peer_id is Some ==> d.bootstrap[k].peer_id
                    != d.bootstrap[i].peer_id);
            } else if k > i {
                assert(d.bootstrap[i].peer_id != d.bootstrap[k].peer_id);
            }
        } else {
            assert(d.bootstrap[k].peer_id != Some(peer));
        }
    }
}

/// A bootstrap ends at most once: its end is handled only while one is in
/// progress.
pub proof fn law_bootstrap_ends_once(state: State, event: NetworkEvent)
    requires
        state != State::Bootstrapping,
    ensures
        !(handler_for(state, event) is SuccessfulBootstrap),
        !(handler_for(state, event) is FailedBootstrap),
{
}

} // verus!
