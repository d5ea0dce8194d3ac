//! What discovery makes of peers and connections, call by call.

use vstd::prelude::*;

use crate::discovery::state::{
    action_views, addresses, addresses_match, dialed_view, first_match, first_with_address,
    first_with_peer, is_at, node_of, without_connection, Action, ActionView, AddressView,
    BootstrapProtocol, BootstrapView, ClosedConnection, Config, ConnectionId, DialInfo, Discovery,
    DiscoveryView, Handler, NetworkEvent, OutboundState, PeerIdentity, State,
};
use crate::engine::event::PeerId;
use crate::network::multiaddr::{peer_in, without_peer, Multiaddr};
use crate::votekeeper::keeper::lemma_push_contains;

verus! {

/// Whether a peer that has identified itself is taken in: on a connection that is
/// new, as a persistent peer where only these are, and while it has fewer
/// connections than allowed.
pub open spec fn takes_in<E>(
    before: DiscoveryView<E>,
    after: DiscoveryView<E>,
    connection: ConnectionId,
    peer: PeerId,
) -> bool {
    &&& !before.connections_of(peer).contains(connection)
    &&& !before.config.persistent_peers_only || after.is_persistent(peer)
    &&& !before.active.contains_key(peer) || before.active[peer].len()
        < before.config.max_connections_per_peer
}

/// Whether a connection is queued for closing, at once or later.
pub open spec fn queues_close(actions: Seq<ActionView>, peer: PeerId, connection: ConnectionId) -> bool {
    exists|i: int|
        0 <= i < actions.len() && (#[trigger] actions[i] matches ActionView::QueueClose(p, c, _) && p
            == peer && c == connection)
}

proof fn lemma_persistent<E>(
    d: &mut Discovery<E>,
    connection: ConnectionId,
    peer: PeerId,
    info: PeerIdentity<E>,
    dial: DialInfo,
    r: (bool, Vec<Action>),
)
    requires
        call_ensures(Discovery::<E>::handle_new_peer, (d, connection, peer, info, dial), r),
        !old(d)@.is_active(peer, connection),
    ensures
        final(d)@.is_persistent(peer) == old(d)@.identified(
            connection,
            peer,
            dialed_view(dial.dialed_addrs),
        ).is_persistent(peer),
        final(d)@.bootstrap == old(d)@.identified(
            connection,
            peer,
            dialed_view(dial.dialed_addrs),
        ).bootstrap,
        old(d)@.is_active(peer, connection) == old(d)@.connections_of(peer).contains(connection),
{
    let a = old(d)@.identified(connection, peer, dialed_view(dial.dialed_addrs)).bootstrap;
    assert(final(d)@.bootstrap == a);
}

/// What is known of a peer that is taken in, or that has too many connections, is
/// what it said last; it is counted when it is new, and its dial is no longer in
/// progress. Other peers are known as before.
pub proof fn law_peer_is_recorded<E>(
    d: &mut Discovery<E>,
    connection: ConnectionId,
    peer: PeerId,
    info: PeerIdentity<E>,
    dial: DialInfo,
    r: (bool, Vec<Action>),
    other: PeerId,
)
    requires
        call_ensures(Discovery::<E>::handle_new_peer, (d, connection, peer, info, dial), r),
        !old(d)@.connections_of(peer).contains(connection),
        !old(d)@.config.persistent_peers_only || final(d)@.is_persistent(peer),
        other != peer,
    ensures
        final(d)@.discovered.contains_key(peer),
        final(d)@.discovered[peer] == addresses(info.listen_addrs@),
        info.signed_peer_record matches Some(e) ==> final(d)@.signed.contains_key(peer)
            && final(d)@.signed[peer] == e,
        info.signed_peer_record is None ==> final(d)@.signed == old(d)@.signed,
        final(d)@.discovered.contains_key(other) == old(d)@.discovered.contains_key(other),
        old(d)@.discovered.contains_key(other) ==> final(d)@.discovered[other]
            == old(d)@.discovered[other],
        final(d)@.signed.contains_key(other) == old(d)@.signed.contains_key(other),
        action_views(r.1@).contains(ActionView::RemoveDialInProgress(connection)),
        action_views(r.1@).contains(ActionView::IncrementDiscovered) == !old(
            d,
        )@.discovered.contains_key(peer),
{
    let a = action_views(r.1@);
    lemma_persistent(d, connection, peer, info, dial, r);
    assert(a[0] == ActionView::RemoveDialInProgress(connection));
    if !old(d)@.discovered.contains_key(peer) {
        assert(a[1] == ActionView::IncrementDiscovered);
    }
}

/// The connection of a peer that is taken in joins those that the peer has, and
/// the metrics are updated. Connections of other peers stay. The peer counts as
/// connected already exactly where it had a connection, or is refused.
pub proof fn law_connection_joins_its_peer<E>(
    d: &mut Discovery<E>,
    connection: ConnectionId,
    peer: PeerId,
    info: PeerIdentity<E>,
    dial: DialInfo,
    r: (bool, Vec<Action>),
    other: PeerId,
)
    requires
        call_ensures(Discovery::<E>::handle_new_peer, (d, connection, peer, info, dial), r),
        takes_in(old(d)@, final(d)@, connection, peer),
        other != peer,
    ensures
        final(d)@.active.contains_key(peer),
        final(d)@.active[peer] == old(d)@.connections_of(peer).push(connection),
        final(d)@.active.contains_key(other) == old(d)@.active.contains_key(other),
        old(d)@.active.contains_key(other) ==> final(d)@.active[other] == old(d)@.active[other],
        final(d)@.connections == old(d)@.connections,
        final(d)@.config == old(d)@.config,
        final(d)@.state == old(d)@.state,
        action_views(r.1@).len() > 0 && action_views(r.1@).last() == ActionView::UpdateMetrics,
        r.0 == (old(d)@.active.contains_key(peer) || (!old(d)@.config.enabled && !dial.we_dialed
            && old(d)@.inbound.len() >= old(d)@.config.num_inbound_peers)),
{
    lemma_persistent(d, connection, peer, info, dial, r);
}

/// With discovery done and outbound peers missing, a peer that is taken in and is
/// neither outbound nor inbound becomes an outbound peer, pending until it agrees:
/// it is asked to be one, and its connection is not queued for closing.
pub proof fn law_missing_outbound_peer_is_taken<E>(
    d: &mut Discovery<E>,
    connection: ConnectionId,
    peer: PeerId,
    info: PeerIdentity<E>,
    dial: DialInfo,
    r: (bool, Vec<Action>),
)
    requires
        call_ensures(Discovery::<E>::handle_new_peer, (d, connection, peer, info, dial), r),
        takes_in(old(d)@, final(d)@, connection, peer),
        old(d)@.config.enabled,
        old(d)@.state == State::Idle,
        !old(d)@.outbound.contains_key(peer),
        !old(d)@.inbound.contains(peer),
        old(d)@.outbound.len() < old(d)@.config.num_outbound_peers,
    ensures
        final(d)@.outbound.contains_key(peer) && final(d)@.outbound[peer] == OutboundState::Pending,
        final(d)@.outbound.remove(peer) =~= old(d)@.outbound,
        final(d)@.inbound == old(d)@.inbound,
        action_views(r.1@).contains(ActionView::QueueConnectRequest(peer)),
        !queues_close(action_views(r.1@), peer, connection),
        forall|p: PeerId| p != peer ==> !action_views(r.1@).contains(ActionView::QueueConnectRequest(p)),
{
    let a = action_views(r.1@);
    lemma_persistent(d, connection, peer, info, dial, r);
    let n = if old(d)@.discovered.contains_key(peer) {
        1int
    } else {
        2
    };
    assert(a[n] == ActionView::QueueConnectRequest(peer));
}

/// With discovery on, a peer that is taken in and is neither outbound nor inbound
/// stays neither while the initial discovery goes on, and once there are enough
/// outbound peers: its connection is closed after the time for ephemeral ones, and
/// a discovery that is extending takes its next step. It is not asked for
/// anything.
pub proof fn law_other_peer_is_ephemeral<E>(
    d: &mut Discovery<E>,
    connection: ConnectionId,
    peer: PeerId,
    info: PeerIdentity<E>,
    dial: DialInfo,
    r: (bool, Vec<Action>),
)
    requires
        call_ensures(Discovery::<E>::handle_new_peer, (d, connection, peer, info, dial), r),
        takes_in(old(d)@, final(d)@, connection, peer),
        old(d)@.config.enabled,
        !old(d)@.outbound.contains_key(peer),
        !old(d)@.inbound.contains(peer),
        old(d)@.state != State::Idle || old(d)@.outbound.len() >= old(d)@.config.num_outbound_peers,
    ensures
        final(d)@.outbound == old(d)@.outbound,
        final(d)@.inbound == old(d)@.inbound,
        action_views(r.1@).contains(
            ActionView::QueueClose(
                peer,
                connection,
                Some(old(d)@.config.ephemeral_connection_timeout),
            ),
        ),
        action_views(r.1@).contains(ActionView::MakeExtensionStep) == (old(d)@.state is Extending),
        forall|p: PeerId| !action_views(r.1@).contains(ActionView::QueueConnectRequest(p)),
        !action_views(r.1@).contains(ActionView::QueueClose(peer, connection, None)),
{
    let a = action_views(r.1@);
    lemma_persistent(d, connection, peer, info, dial, r);
    let n = if old(d)@.discovered.contains_key(peer) {
        1int
    } else {
        2
    };
    assert(a[n] == ActionView::QueueClose(
        peer,
        connection,
        Some(old(d)@.config.ephemeral_connection_timeout),
    ));
    if old(d)@.state is Extending {
        assert(a[n + 1] == ActionView::MakeExtensionStep);
    }
}

/// With discovery on, another connection of a peer that is outbound or inbound
/// already changes neither, and is not closed.
pub proof fn law_known_peer_keeps_its_role<E>(
    d: &mut Discovery<E>,
    connection: ConnectionId,
    peer: PeerId,
    info: PeerIdentity<E>,
    dial: DialInfo,
    r: (bool, Vec<Action>),
)
    requires
        call_ensures(Discovery::<E>::handle_new_peer, (d, connection, peer, info, dial), r),
        takes_in(old(d)@, final(d)@, connection, peer),
        old(d)@.config.enabled,
        old(d)@.outbound.contains_key(peer) || old(d)@.inbound.contains(peer),
    ensures
        final(d)@.outbound == old(d)@.outbound,
        final(d)@.inbound == old(d)@.inbound,
        !queues_close(action_views(r.1@), peer, connection),
        forall|p: PeerId| !action_views(r.1@).contains(ActionView::QueueConnectRequest(p)),
        !action_views(r.1@).contains(ActionView::MakeExtensionStep),
{
    lemma_persistent(d, connection, peer, info, dial, r);
}

/// With discovery off, a peer that is taken in is an outbound peer, confirmed, if
/// this node dialed it, whatever room there is; else it is an inbound peer while
/// there is room, and refused without: its connection is closed at once.
pub proof fn law_direction_decides_without_discovery<E>(
    d: &mut Discovery<E>,
    connection: ConnectionId,
    peer: PeerId,
    info: PeerIdentity<E>,
    dial: DialInfo,
    r: (bool, Vec<Action>),
)
    requires
        call_ensures(Discovery::<E>::handle_new_peer, (d, connection, peer, info, dial), r),
        takes_in(old(d)@, final(d)@, connection, peer),
        !old(d)@.config.enabled,
    ensures
        dial.we_dialed ==> {
            &&& final(d)@.outbound.contains_key(peer)
            &&& final(d)@.outbound[peer] == OutboundState::Confirmed
            &&& final(d)@.outbound.remove(peer) =~= old(d)@.outbound.remove(peer)
            &&& final(d)@.inbound == old(d)@.inbound
            &&& !queues_close(action_views(r.1@), peer, connection)
        },
        !dial.we_dialed && old(d)@.inbound.len() < old(d)@.config.num_inbound_peers ==> {
            &&& final(d)@.inbound == old(d)@.inbound.insert(peer)
            &&& final(d)@.outbound == old(d)@.outbound
            &&& !queues_close(action_views(r.1@), peer, connection)
        },
        !dial.we_dialed && old(d)@.inbound.len() >= old(d)@.config.num_inbound_peers ==> {
            &&& final(d)@.inbound == old(d)@.inbound
            &&& final(d)@.outbound == old(d)@.outbound
            &&& action_views(r.1@).contains(ActionView::QueueClose(peer, connection, None))
            &&& r.0
        },
        forall|p: PeerId| !action_views(r.1@).contains(ActionView::QueueConnectRequest(p)),
{
    let a = action_views(r.1@);
    lemma_persistent(d, connection, peer, info, dial, r);
    let n = if old(d)@.discovered.contains_key(peer) {
        1int
    } else {
        2
    };
    if !dial.we_dialed && old(d)@.inbound.len() >= old(d)@.config.num_inbound_peers {
        assert(a[n] == ActionView::QueueClose(peer, connection, None));
    }
}

/// A peer that identifies itself again on a connection that it has changes
/// nothing, and leads to nothing.
pub proof fn law_repeated_identification_is_ignored<E>(
    d: &mut Discovery<E>,
    connection: ConnectionId,
    peer: PeerId,
    info: PeerIdentity<E>,
    dial: DialInfo,
    r: (bool, Vec<Action>),
)
    requires
        call_ensures(Discovery::<E>::handle_new_peer, (d, connection, peer, info, dial), r),
        old(d)@.active.contains_key(peer),
        old(d)@.active[peer].contains(connection),
    ensures
        final(d)@ == old(d)@,
        r.0,
        r.1@.len() == 0,
{
    assert(action_views(r.1@).len() == r.1@.len());
}

/// A connection of a peer that may not be connected, or that has as many
/// connections as allowed, is closed at once, and the peer gets no role and no
/// connection by it.
pub proof fn law_refused_connection_is_closed<E>(
    d: &mut Discovery<E>,
    connection: ConnectionId,
    peer: PeerId,
    info: PeerIdentity<E>,
    dial: DialInfo,
    r: (bool, Vec<Action>),
)
    requires
        call_ensures(Discovery::<E>::handle_new_peer, (d, connection, peer, info, dial), r),
        !old(d)@.connections_of(peer).contains(connection),
        !takes_in(old(d)@, final(d)@, connection, peer),
    ensures
        action_views(r.1@).contains(ActionView::QueueClose(peer, connection, None)),
        r.0,
        final(d)@.active == old(d)@.active,
        final(d)@.outbound == old(d)@.outbound,
        final(d)@.inbound == old(d)@.inbound,
{
    let a = action_views(r.1@);
    lemma_persistent(d, connection, peer, info, dial, r);
    assert(a[a.len() - 1] == ActionView::QueueClose(peer, connection, None));
}

/// The routing table gets an address exactly with Kademlia, for a peer that is
/// taken in: the first that the peer says it listens on, where it was dialed there
/// or is connected from there.
pub proof fn law_routing_table_gets_known_addresses<E>(
    d: &mut Discovery<E>,
    connection: ConnectionId,
    peer: PeerId,
    info: PeerIdentity<E>,
    dial: DialInfo,
    r: (bool, Vec<Action>),
    p: PeerId,
    a: AddressView,
)
    requires
        call_ensures(Discovery::<E>::handle_new_peer, (d, connection, peer, info, dial), r),
        takes_in(old(d)@, final(d)@, connection, peer),
    ensures
        action_views(r.1@).contains(ActionView::AddRoutingAddress(p, a)) == ({
            let listen = addresses(info.listen_addrs@);
            &&& old(d)@.config.enabled
            &&& old(d)@.config.bootstrap_protocol == BootstrapProtocol::Kademlia
            &&& p == peer
            &&& listen.len() > 0 && listen[0] == a
            &&& (dialed_view(dial.dialed_addrs) matches Some(x) && x.contains(a)) || (old(
                d,
            )@.connections.contains_key(connection) && without_peer(
                old(d)@.connections[connection].remote_addr,
            ) == without_peer(a))
        }),
{
    let acts = action_views(r.1@);
    lemma_persistent(d, connection, peer, info, dial, r);
    let n = acts.len() as int;
    let routes = old(d)@.config.enabled && old(d)@.config.bootstrap_protocol
        == BootstrapProtocol::Kademlia && addresses(info.listen_addrs@).len() > 0 && is_at(
        addresses(info.listen_addrs@)[0],
        dialed_view(dial.dialed_addrs),
        old(d)@.remote_of(connection),
    );
    if routes {
        assert(acts[n - 2] == ActionView::AddRoutingAddress(
            peer,
            addresses(info.listen_addrs@)[0],
        ));
    }
}

proof fn lemma_first_match(
    nodes: Seq<BootstrapView>,
    dialed: Option<Seq<AddressView>>,
    remote: Option<AddressView>,
    i: int,
)
    requires
        0 <= i,
    ensures
        match first_match(nodes, dialed, remote, i) {
            Some(k) => i <= k < nodes.len() && nodes[k].peer_id is None && addresses_match(
                nodes[k].addrs,
                dialed,
                remote,
            ) && forall|j: int|
                i <= j < k ==> !((#[trigger] nodes[j]).peer_id is None && addresses_match(
                    nodes[j].addrs,
                    dialed,
                    remote,
                )),
            None => forall|j: int|
                i <= j < nodes.len() ==> !((#[trigger] nodes[j]).peer_id is None && addresses_match(
                    nodes[j].addrs,
                    dialed,
                    remote,
                )),
        },
    decreases nodes.len() - i,
{
    if i < nodes.len() && !(nodes[i].peer_id is None && addresses_match(
        nodes[i].addrs,
        dialed,
        remote,
    )) {
        lemma_first_match(nodes, dialed, remote, i + 1);
    }
}

/// A peer that is not configured by its identifier is recognised as the first
/// configured peer that is not identified yet and has an address that was dialed
/// or, where nothing was dialed, that the peer is connected from. No other
/// configured peer changes, and none changes its addresses.
pub proof fn law_configured_peer_is_recognised<E>(
    d: &mut Discovery<E>,
    connection: ConnectionId,
    peer: PeerId,
    info: PeerIdentity<E>,
    dial: DialInfo,
    r: (bool, Vec<Action>),
    i: int,
)
    requires
        call_ensures(Discovery::<E>::handle_new_peer, (d, connection, peer, info, dial), r),
        !old(d)@.connections_of(peer).contains(connection),
        0 <= i < old(d)@.bootstrap.len(),
    ensures
        ({
            let nodes = old(d)@.bootstrap;
            let after = final(d)@.bootstrap;
            let remote = old(d)@.remote_of(connection);
            let dialed = dialed_view(dial.dialed_addrs);
            let is_first = nodes[i].peer_id is None && addresses_match(nodes[i].addrs, dialed, remote)
                && forall|j: int|
                0 <= j < i ==> !((#[trigger] nodes[j]).peer_id is None && addresses_match(
                    nodes[j].addrs,
                    dialed,
                    remote,
                ));
            let configured = exists|j: int|
                0 <= j < nodes.len() && (#[trigger] nodes[j]).peer_id == Some(peer);
            &&& after.len() == nodes.len()
            &&& after[i].addrs == nodes[i].addrs
            &&& after[i].peer_id == if !configured && is_first {
                Some(peer)
            } else {
                nodes[i].peer_id
            }
        }),
{
    lemma_persistent(d, connection, peer, info, dial, r);
    lemma_first_match(
        old(d)@.bootstrap,
        dialed_view(dial.dialed_addrs),
        old(d)@.remote_of(connection),
        0,
    );
}

proof fn lemma_without(ids: Seq<ConnectionId>, c: ConnectionId, x: ConnectionId)
    ensures
        without_connection(ids, c).contains(x) == (ids.contains(x) && x != c),
    decreases ids.len(),
{
    if ids.len() > 0 {
        let rest = ids.drop_last();
        lemma_without(rest, c, x);
        lemma_push_contains(rest, ids.last(), x);
        lemma_push_contains(without_connection(rest, c), ids.last(), x);
        assert(rest.push(ids.last()) =~= ids);
    }
}

/// A closed connection is gone, and no other is: its peer keeps the others that it
/// has. With its last connection a peer loses its role, and is to be forgotten.
/// The outbound peers are repaired where the peer was one and discovery is on.
/// Nothing changes for other peers.
pub proof fn law_closed_connection_is_gone<E>(
    d: &mut Discovery<E>,
    peer: PeerId,
    connection: ConnectionId,
    was_last: bool,
    r: (Vec<Action>, ClosedConnection),
    x: ConnectionId,
    other: PeerId,
)
    requires
        call_ensures(Discovery::<E>::handle_closed_connection, (d, peer, connection, was_last), r),
        other != peer,
    ensures
        final(d)@.connections_of(peer).contains(x) == (old(d)@.connections_of(peer).contains(x) && x
            != connection),
        final(d)@.connections.contains_key(x) == (old(d)@.connections.contains_key(x) && x
            != connection),
        final(d)@.active.contains_key(other) == old(d)@.active.contains_key(other),
        old(d)@.active.contains_key(other) ==> final(d)@.active[other] == old(d)@.active[other],
        final(d)@.outbound.contains_key(peer) == (old(d)@.outbound.contains_key(peer) && !was_last),
        final(d)@.outbound.contains_key(other) == old(d)@.outbound.contains_key(other),
        old(d)@.outbound.contains_key(other) ==> final(d)@.outbound[other] == old(d)@.outbound[other],
        !old(d)@.outbound.contains_key(peer) ==> final(d)@.inbound.contains(peer) == (old(
            d,
        )@.inbound.contains(peer) && !was_last),
        final(d)@.inbound.contains(other) == old(d)@.inbound.contains(other),
        final(d)@.discovered == old(d)@.discovered,
        final(d)@.bootstrap == old(d)@.bootstrap,
        r.1.forget_peer == was_last,
        r.1.repair_outbound_peers == (old(d)@.outbound.contains_key(peer) && old(d)@.config.enabled),
        r.0@.len() == 1 && r.0@[0]@ == ActionView::RemoveDialInProgress(connection),
{
    lemma_without(old(d)@.connections_of(peer), connection, x);
    let a = action_views(r.0@);
    assert(a.len() == r.0@.len());
    assert(a[0] == r.0@[0]@);
    assert(old(d)@.config == old(d).config);
}

proof fn lemma_with_peer(nodes: Seq<BootstrapView>, p: PeerId, i: int)
    requires
        0 <= i,
    ensures
        match first_with_peer(nodes, p, i) {
            Some(k) => i <= k < nodes.len() && nodes[k].peer_id == Some(p) && forall|j: int|
                i <= j < k ==> (#[trigger] nodes[j]).peer_id != Some(p),
            None => forall|k: int| i <= k < nodes.len() ==> (#[trigger] nodes[k]).peer_id != Some(p),
        },
    decreases nodes.len() - i,
{
    if i < nodes.len() && nodes[i].peer_id != Some(p) {
        lemma_with_peer(nodes, p, i + 1);
    }
}

/// A peer that is forgotten is not known, and has no record; others stay. It may
/// be asked again to be an outbound peer. The first configured peer that it was is
/// not identified any more, and it can be dialed again at its addresses; without
/// such a one it can be dialed again, at the addresses that it said, where
/// discovery is off.
pub proof fn law_forgotten_peer_leaves_no_trace<E>(
    d: &mut Discovery<E>,
    peer: PeerId,
    r: Vec<Action>,
    other: PeerId,
    i: int,
)
    requires
        call_ensures(Discovery::<E>::cleanup_peer_on_disconnect, (d, peer), r),
        other != peer,
        0 <= i < old(d)@.bootstrap.len(),
    ensures
        !final(d)@.discovered.contains_key(peer) && !final(d)@.signed.contains_key(peer),
        final(d)@.discovered.contains_key(other) == old(d)@.discovered.contains_key(other),
        final(d)@.signed.contains_key(other) == old(d)@.signed.contains_key(other),
        final(d)@.active == old(d)@.active && final(d)@.connections == old(d)@.connections,
        final(d)@.outbound == old(d)@.outbound && final(d)@.inbound == old(d)@.inbound,
        ({
            let nodes = old(d)@.bootstrap;
            let after = final(d)@.bootstrap;
            let acts = action_views(r@);
            let is_first = nodes[i].peer_id == Some(peer) && forall|j: int|
                0 <= j < i ==> (#[trigger] nodes[j]).peer_id != Some(peer);
            let configured = exists|j: int|
                0 <= j < nodes.len() && (#[trigger] nodes[j]).peer_id == Some(peer);
            &&& after.len() == nodes.len() && after[i].addrs == nodes[i].addrs
            &&& after[i].peer_id == if is_first {
                None
            } else {
                nodes[i].peer_id
            }
            &&& acts.len() > 0 && acts[0] == ActionView::RemoveConnectRequestDone(peer)
            &&& is_first ==> acts.len() == 2 && acts[1] == ActionView::ClearDialDone(
                peer,
                nodes[i].addrs,
            )
            &&& !configured && !old(d)@.config.enabled ==> acts.len() == 2 && acts[1]
                == ActionView::ClearDialDone(
                peer,
                if old(d)@.discovered.contains_key(peer) {
                    old(d)@.discovered[peer]
                } else {
                    Seq::empty()
                },
            )
            &&& !configured && old(d)@.config.enabled ==> acts.len() == 1
        }),
{
    lemma_with_peer(old(d)@.bootstrap, peer, 0);
}

/// A connection that is queued for closing is closed unless it is one of the
/// connections of an outbound or inbound peer, and closing goes on only once the
/// initial discovery is done.
pub proof fn law_connections_of_peers_stay_open<E>(
    d: &Discovery<E>,
    peer: PeerId,
    connection: ConnectionId,
    closes: bool,
    ready: bool,
    can: bool,
)
    requires
        call_ensures(Discovery::<E>::should_close, (d, peer, connection), closes),
        call_ensures(Discovery::<E>::can_close, (d, ready), can),
    ensures
        closes == !((d@.outbound.contains_key(peer) || d@.inbound.contains(peer))
            && d@.connections_of(peer).contains(connection)),
        can == (d@.state == State::Idle && ready),
{
    assert(d@.is_active(peer, connection) == d@.connections_of(peer).contains(connection));
}

/// A peer that is connected without a role becomes an inbound peer while there is
/// room, and only then.
pub proof fn law_promotion_takes_a_free_slot<E>(d: &mut Discovery<E>, peer: PeerId, r: bool, other: PeerId)
    requires
        call_ensures(Discovery::<E>::promote_to_inbound, (d, peer), r),
        other != peer,
    ensures
        r == (old(d)@.active.contains_key(peer) && !old(d)@.outbound.contains_key(peer) && !old(
            d,
        )@.inbound.contains(peer) && old(d)@.inbound.len() < old(d)@.config.num_inbound_peers),
        r ==> final(d)@.inbound.contains(peer),
        !r ==> final(d)@ == old(d)@,
        final(d)@.inbound.contains(other) == old(d)@.inbound.contains(other),
        final(d)@.outbound == old(d)@.outbound && final(d)@.active == old(d)@.active,
{
    assert(old(d)@.config == old(d).config);
}

/// An evicted peer is inbound no longer, and each of its connections is closed at
/// once. One that was not inbound is left alone.
pub proof fn law_eviction_closes_connections<E>(
    d: &mut Discovery<E>,
    peer: PeerId,
    r: Option<Vec<Action>>,
    other: PeerId,
    c: ConnectionId,
)
    requires
        call_ensures(Discovery::<E>::evict_inbound_peer, (d, peer), r),
        other != peer,
    ensures
        r is Some == old(d)@.inbound.contains(peer),
        !final(d)@.inbound.contains(peer),
        final(d)@.inbound.contains(other) == old(d)@.inbound.contains(other),
        final(d)@.active == old(d)@.active && final(d)@.outbound == old(d)@.outbound,
        r matches Some(a) ==> action_views(a@).contains(ActionView::QueueClose(peer, c, None)) == old(
            d,
        )@.connections_of(peer).contains(c),
        r matches Some(a) ==> !queues_close(action_views(a@), other, c),
        r matches Some(a) ==> action_views(a@).len() > 0 && action_views(a@).last()
            == ActionView::UpdateMetrics,
{
    if let Some(a) = r {
        let ids = old(d)@.connections_of(peer);
        let acts = action_views(a@);
        let close = |x: ConnectionId| ActionView::QueueClose(peer, x, None);
        assert(forall|i: int| 0 <= i < ids.len() ==> #[trigger] acts[i] == close(ids[i]));
        if ids.contains(c) {
            let i = choose|i: int| 0 <= i < ids.len() && ids[i] == c;
            assert(acts[i] == close(ids[i]));
        }
        if acts.contains(ActionView::QueueClose(peer, c, None)) {
            let i = choose|i: int| 0 <= i < acts.len() && acts[i] == ActionView::QueueClose(
                peer,
                c,
                None,
            );
            assert(acts[i] == close(ids[i]));
            assert(ids.contains(ids[i]));
        }
        if queues_close(acts, other, c) {
            let i = choose|i: int|
                0 <= i < acts.len() && (#[trigger] acts[i] matches ActionView::QueueClose(p, x, _) && p
                    == other && x == c);
            assert(acts[i] == close(ids[i]));
        }
    }
}

proof fn lemma_with_address(nodes: Seq<BootstrapView>, a: AddressView, i: int)
    requires
        0 <= i,
    ensures
        match first_with_address(nodes, a, i) {
            Some(k) => i <= k < nodes.len() && nodes[k].addrs.contains(a) && forall|j: int|
                i <= j < k ==> !(#[trigger] nodes[j]).addrs.contains(a),
            None => forall|j: int| i <= j < nodes.len() ==> !(#[trigger] nodes[j]).addrs.contains(a),
        },
    decreases nodes.len() - i,
{
    if i < nodes.len() && !nodes[i].addrs.contains(a) {
        lemma_with_address(nodes, a, i + 1);
    }
}

/// An address is that of one configured peer at most: it is added with the peer
/// that it names unless it is there, and then it is there; the others stay.
pub proof fn law_configured_address_is_added_once<E>(d: &mut Discovery<E>, addr: Multiaddr)
    requires
        call_ensures(Discovery::<E>::add_bootstrap_node, (d, addr), ()),
    ensures
        ({
            let nodes = old(d)@.bootstrap;
            let after = final(d)@.bootstrap;
            let there = exists|j: int| 0 <= j < nodes.len() && (#[trigger] nodes[j]).addrs.contains(addr@);
            &&& there ==> after == nodes
            &&& !there ==> after.len() == nodes.len() + 1 && after.drop_last() =~= nodes
                && after.last().peer_id == peer_in(addr@) && after.last().addrs =~= seq![addr@]
        }),
        final(d)@.active == old(d)@.active && final(d)@.discovered == old(d)@.discovered,
{
    lemma_with_address(old(d)@.bootstrap, addr@, 0);
}

/// Removing an address removes the first configured peer that has it, and says
/// whether there was one; the identifier of that one is found by the address.
pub proof fn law_configured_address_is_removed<E>(
    d: &mut Discovery<E>,
    found: &Discovery<E>,
    addr: Multiaddr,
    r: bool,
    id: Option<PeerId>,
    i: int,
)
    requires
        *found == *old(d),
        call_ensures(Discovery::<E>::remove_bootstrap_node, (d, &addr), r),
        call_ensures(Discovery::<E>::get_peer_id_for_addr, (found, &addr), id),
        0 <= i < old(d)@.bootstrap.len(),
    ensures
        ({
            let nodes = old(d)@.bootstrap;
            let is_first = nodes[i].addrs.contains(addr@) && forall|j: int|
                0 <= j < i ==> !(#[trigger] nodes[j]).addrs.contains(addr@);
            &&& is_first ==> r && final(d)@.bootstrap == nodes.remove(i) && id == nodes[i].peer_id
            &&& nodes[i].addrs.contains(addr@) ==> r
            &&& !r ==> final(d)@.bootstrap == nodes && id is None
        }),
{
    lemma_with_address(old(d)@.bootstrap, addr@, 0);
}

/// A persistent peer that is removed can be dialed again: at its address without
/// the peer, and by its identifier where that is known.
pub proof fn law_cancelled_dials<E>(addr: Multiaddr, peer_id: Option<PeerId>, r: Vec<Action>)
    requires
        call_ensures(Discovery::<E>::cancel_dial_attempts, (&addr, peer_id), r),
    ensures
        action_views(r@).contains(ActionView::RemoveDialDoneAddress(without_peer(addr@))),
        peer_id matches Some(p) ==> action_views(r@).contains(ActionView::RemoveDialDonePeer(p)),
        r@.len() == if peer_id is Some {
            2int
        } else {
            1
        },
{
    let a = action_views(r@);
    assert(a.len() == r@.len());
    assert(a[0] == ActionView::RemoveDialDoneAddress(without_peer(addr@)));
    if let Some(p) = peer_id {
        assert(a[1] == ActionView::RemoveDialDonePeer(p));
    }
}

/// Each event of the discovery protocols reaches what handles its kind; the end of
/// a bootstrap does only where one is in progress and this was its last step.
pub proof fn law_events_reach_their_handlers<E>(d: &Discovery<E>, event: NetworkEvent, r: Handler)
    requires
        call_ensures(Discovery::<E>::on_network_event, (d, event), r),
    ensures
        r is SuccessfulBootstrap <==> (event matches NetworkEvent::BootstrapProgressed { last } && last)
            && d.state == State::Bootstrapping,
        r is FailedBootstrap <==> event is BootstrapFailed && d.state == State::Bootstrapping,
        r is PeersRequest <==> event is PeersRequest,
        r is ConnectRequest <==> event is ConnectRequest,
        r is PeersResponse <==> event is PeersResponse,
        r is ConnectResponse <==> event is ConnectResponse,
        event matches NetworkEvent::ConnectResponse { accepted } ==> r == (Handler::ConnectResponse {
            accepted,
        }),
        r is FailedPeersRequest <==> (event matches NetworkEvent::OutboundFailure { peers_request, .. }
            && peers_request),
        r is FailedConnectRequest <==> (event matches NetworkEvent::OutboundFailure {
            peers_request,
            connect_request,
        } && !peers_request && connect_request),
{
}

/// Discovery begins with the configured addresses, each with the peer that it
/// names, and knows nobody. It has something to do at first exactly where it is on
/// and has addresses: a bootstrap with Kademlia, and else to find as many outbound
/// peers as are wanted.
pub proof fn law_discovery_begins<E>(config: Config, nodes: Vec<Multiaddr>, r: Discovery<E>, i: int)
    requires
        call_ensures(Discovery::<E>::new, (config, nodes), r),
        0 <= i < nodes@.len(),
    ensures
        r@.bootstrap.len() == nodes@.len(),
        r@.bootstrap[i].peer_id == peer_in(nodes@[i]@),
        r@.bootstrap[i].addrs =~= seq![nodes@[i]@],
        r@.config == config,
        config.enabled && config.bootstrap_protocol == BootstrapProtocol::Kademlia ==> r@.state
            == State::Bootstrapping,
        config.enabled && config.bootstrap_protocol == BootstrapProtocol::Full ==> r@.state
            == State::Extending(config.num_outbound_peers),
        !config.enabled ==> r@.state == State::Idle,
        forall|p: PeerId|
            !r@.discovered.contains_key(p) && !r@.active.contains_key(p) && !r@.outbound.contains_key(p)
                && !r@.inbound.contains(p),
{
    assert(r@.bootstrap[i] == node_of(nodes@[i]@));
}

/// Without configured addresses discovery has nothing to do at first.
pub proof fn law_discovery_needs_addresses<E>(config: Config, nodes: Vec<Multiaddr>, r: Discovery<E>)
    requires
        call_ensures(Discovery::<E>::new, (config, nodes), r),
        nodes@.len() == 0,
    ensures
        r@.state == State::Idle,
        r@.bootstrap.len() == 0,
{
}

} // verus!
