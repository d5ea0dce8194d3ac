//! The state of discovery, and what it does when peers come and go.
//!
//! Dialing, requests and rate limits are carried out outside; the methods here
//! say what is to be done and keep track of peers and connections.

use vstd::prelude::*;
use vstd::string::*;

use crate::engine::event::PeerId;
use crate::ident::{Ident, OrdMap};
use crate::network::multiaddr::{
    contains_address, holds_address, peer_in, without_peer, ComponentView, Multiaddr,
};

verus! {

/// Identifies a connection.
pub type ConnectionId = u64;

/// The parts of an address, as values.
pub type AddressView = Seq<ComponentView>;

/// Which side opened a connection.
#[derive(Clone, Copy, Debug, PartialEq, Eq, Structural)]
pub enum ConnectionDirection {
    /// This node dialed the peer.
    Outbound,
    /// The peer dialed this node.
    Inbound,
}

impl ConnectionDirection {
    /// The direction as text.
    pub fn as_str(&self) -> (r: &'static str)
        ensures
            r@ == (match self {
                ConnectionDirection::Outbound => "outbound"@,
                ConnectionDirection::Inbound => "inbound"@,
            }),
    {
        match self {
            ConnectionDirection::Outbound => "outbound",
            ConnectionDirection::Inbound => "inbound",
        }
    }
}

/// How the first peers are found.
#[derive(Clone, Copy, Debug, PartialEq, Eq, Structural)]
pub enum BootstrapProtocol {
    /// By a Kademlia query.
    Kademlia,
    /// By asking all known peers.
    Full,
}

/// What discovery is configured with.
#[derive(Clone, Copy, Debug, PartialEq, Eq, Structural)]
pub struct Config {
    /// Whether peers are discovered at all.
    pub enabled: bool,
    /// Whether only persistent peers are accepted.
    pub persistent_peers_only: bool,
    /// How the first peers are found.
    pub bootstrap_protocol: BootstrapProtocol,
    /// How many outbound peers the node wants.
    pub num_outbound_peers: usize,
    /// How many inbound peers the node takes.
    pub num_inbound_peers: usize,
    /// How many connections a peer may have.
    pub max_connections_per_peer: usize,
    /// How long other connections are kept, in milliseconds.
    pub ephemeral_connection_timeout: u64,
}

/// Where discovery is.
#[derive(Clone, Copy, Debug, PartialEq, Eq, Structural)]
pub enum State {
    /// Finding the first peers.
    Bootstrapping,
    /// Extending the set of peers to this many.
    Extending(usize),
    /// Done.
    Idle,
}

/// Whether an outbound peer has agreed to be one.
#[derive(Clone, Copy, Debug, PartialEq, Eq, Structural)]
pub enum OutboundState {
    Pending,
    Confirmed,
}

/// An established connection.
pub struct ConnectionInfo {
    pub direction: ConnectionDirection,
    pub remote_addr: Multiaddr,
}

/// An established connection, as a value.
pub struct ConnectionView {
    pub direction: ConnectionDirection,
    pub remote_addr: AddressView,
}

impl View for ConnectionInfo {
    type V = ConnectionView;

    open spec fn view(&self) -> ConnectionView {
        ConnectionView { direction: self.direction, remote_addr: self.remote_addr@ }
    }
}

/// A configured peer: its addresses and, once it is known, its identifier.
pub struct BootstrapNode {
    pub peer_id: Option<PeerId>,
    pub addrs: Vec<Multiaddr>,
}

/// A configured peer, as a value.
pub struct BootstrapView {
    pub peer_id: Option<PeerId>,
    pub addrs: Seq<AddressView>,
}

/// Addresses, as values.
pub open spec fn addresses(addrs: Seq<Multiaddr>) -> Seq<AddressView> {
    addrs.map_values(|a: Multiaddr| a@)
}

impl View for BootstrapNode {
    type V = BootstrapView;

    open spec fn view(&self) -> BootstrapView {
        BootstrapView { peer_id: self.peer_id, addrs: addresses(self.addrs@) }
    }
}

/// Work outside discovery.
pub enum Action {
    /// Close a connection, after a delay in milliseconds if there is one.
    QueueClose(PeerId, ConnectionId, Option<u64>),
    /// The dial of this connection is no longer in progress.
    RemoveDialInProgress(ConnectionId),
    /// Ask a peer to be an outbound peer.
    QueueConnectRequest(PeerId),
    /// See whether the set of peers can be extended further.
    MakeExtensionStep,
    /// Put an address of a peer into the routing table.
    AddRoutingAddress(PeerId, Multiaddr),
    /// Allow that a peer is asked again to be an outbound peer.
    RemoveConnectRequestDone(PeerId),
    /// Allow that a peer and its addresses are dialed again.
    ClearDialDone(PeerId, Vec<Multiaddr>),
    /// Allow that an address is dialed again.
    RemoveDialDoneAddress(Multiaddr),
    /// Allow that a peer is dialed again.
    RemoveDialDonePeer(PeerId),
    /// Count a discovered peer.
    IncrementDiscovered,
    /// Update the metrics of connected peers.
    UpdateMetrics,
}

/// Work outside discovery, as a value.
pub enum ActionView {
    QueueClose(PeerId, ConnectionId, Option<u64>),
    RemoveDialInProgress(ConnectionId),
    QueueConnectRequest(PeerId),
    MakeExtensionStep,
    AddRoutingAddress(PeerId, AddressView),
    RemoveConnectRequestDone(PeerId),
    ClearDialDone(PeerId, Seq<AddressView>),
    RemoveDialDoneAddress(AddressView),
    RemoveDialDonePeer(PeerId),
    IncrementDiscovered,
    UpdateMetrics,
}

impl View for Action {
    type V = ActionView;

    open spec fn view(&self) -> ActionView {
        match self {
            Action::QueueClose(p, c, d) => ActionView::QueueClose(*p, *c, *d),
            Action::RemoveDialInProgress(c) => ActionView::RemoveDialInProgress(*c),
            Action::QueueConnectRequest(p) => ActionView::QueueConnectRequest(*p),
            Action::MakeExtensionStep => ActionView::MakeExtensionStep,
            Action::AddRoutingAddress(p, a) => ActionView::AddRoutingAddress(*p, a@),
            Action::RemoveConnectRequestDone(p) => ActionView::RemoveConnectRequestDone(*p),
            Action::ClearDialDone(p, a) => ActionView::ClearDialDone(*p, addresses(a@)),
            Action::RemoveDialDoneAddress(a) => ActionView::RemoveDialDoneAddress(a@),
            Action::RemoveDialDonePeer(p) => ActionView::RemoveDialDonePeer(*p),
            Action::IncrementDiscovered => ActionView::IncrementDiscovered,
            Action::UpdateMetrics => ActionView::UpdateMetrics,
        }
    }
}

/// Actions, as values.
pub open spec fn action_views(actions: Seq<Action>) -> Seq<ActionView> {
    actions.map_values(|a: Action| a@)
}

/// Discovery. `E` is what a signed record of a peer is held as.
pub struct Discovery<E> {
    pub config: Config,
    pub state: State,
    /// The configured peers.
    pub bootstrap_nodes: Vec<BootstrapNode>,
    /// The identified peers, with the addresses that they say they listen on.
    pub discovered_peers: OrdMap<PeerId, Vec<Multiaddr>>,
    /// The signed records of peers.
    pub signed_peer_records: OrdMap<PeerId, E>,
    /// The connections of each identified peer.
    pub active_connections: OrdMap<PeerId, Vec<ConnectionId>>,
    /// All established connections.
    pub connections: OrdMap<ConnectionId, ConnectionInfo>,
    /// The outbound peers.
    pub outbound_peers: OrdMap<PeerId, OutboundState>,
    /// The inbound peers.
    pub inbound_peers: OrdMap<PeerId, ()>,
}

/// Discovery, as a value.
#[verifier::reject_recursive_types(E)]
pub struct DiscoveryView<E> {
    pub config: Config,
    pub state: State,
    pub bootstrap: Seq<BootstrapView>,
    pub discovered: Map<PeerId, Seq<AddressView>>,
    pub signed: Map<PeerId, E>,
    pub active: Map<PeerId, Seq<ConnectionId>>,
    pub connections: Map<ConnectionId, ConnectionView>,
    pub outbound: Map<PeerId, OutboundState>,
    pub inbound: Set<PeerId>,
}

/// Configured peers, as values.
pub open spec fn bootstrap_views(nodes: Seq<BootstrapNode>) -> Seq<BootstrapView> {
    nodes.map_values(|n: BootstrapNode| n@)
}

impl<E> View for Discovery<E> {
    type V = DiscoveryView<E>;

    open spec fn view(&self) -> DiscoveryView<E> {
        DiscoveryView {
            config: self.config,
            state: self.state,
            bootstrap: bootstrap_views(self.bootstrap_nodes@),
            discovered: self.discovered_peers@.map_values(|a: Vec<Multiaddr>| addresses(a@)),
            signed: self.signed_peer_records@,
            active: self.active_connections@.map_values(|c: Vec<ConnectionId>| c@),
            connections: self.connections@.map_values(|c: ConnectionInfo| c@),
            outbound: self.outbound_peers@,
            inbound: self.inbound_peers@.dom(),
        }
    }
}

/// The state that discovery starts in.
pub open spec fn initial_state(config: Config, has_bootstrap_nodes: bool) -> State {
    if config.enabled && has_bootstrap_nodes {
        match config.bootstrap_protocol {
            BootstrapProtocol::Kademlia => State::Bootstrapping,
            BootstrapProtocol::Full => State::Extending(config.num_outbound_peers),
        }
    } else {
        State::Idle
    }
}

/// The configured peer with the one address `a`.
pub open spec fn node_of(a: AddressView) -> BootstrapView {
    BootstrapView { peer_id: peer_in(a), addrs: seq![a] }
}

/// `ids` without `c`.
pub open spec fn without_connection(ids: Seq<ConnectionId>, c: ConnectionId) -> Seq<ConnectionId>
    decreases ids.len(),
{
    if ids.len() == 0 {
        Seq::empty()
    } else {
        let rest = without_connection(ids.drop_last(), c);
        if ids.last() == c {
            rest
        } else {
            rest.push(ids.last())
        }
    }
}

/// The first of `nodes` from `i` on that has the address `a`.
pub open spec fn first_with_address(nodes: Seq<BootstrapView>, a: AddressView, i: int) -> Option<int>
    decreases nodes.len() - i,
{
    if i < 0 || i >= nodes.len() {
        None
    } else if nodes[i].addrs.contains(a) {
        Some(i)
    } else {
        first_with_address(nodes, a, i + 1)
    }
}

/// The first of `nodes` from `i` on with the identifier `p`.
pub open spec fn first_with_peer(nodes: Seq<BootstrapView>, p: PeerId, i: int) -> Option<int>
    decreases nodes.len() - i,
{
    if i < 0 || i >= nodes.len() {
        None
    } else if nodes[i].peer_id == Some(p) {
        Some(i)
    } else {
        first_with_peer(nodes, p, i + 1)
    }
}

/// Whether a configured peer with the addresses `addrs` is the one that was
/// dialed at `dialed`, or else that is connected from `remote`. What a peer
/// says of its own addresses does not count.
pub open spec fn addresses_match(
    addrs: Seq<AddressView>,
    dialed: Option<Seq<AddressView>>,
    remote: Option<AddressView>,
) -> bool {
    match dialed {
        Some(d) => exists|i: int| 0 <= i < d.len() && addrs.contains(#[trigger] d[i]),
        None => match remote {
            Some(r) => exists|i: int|
                0 <= i < addrs.len() && without_peer(#[trigger] addrs[i]) == without_peer(r),
            None => false,
        },
    }
}

/// The first of `nodes` from `i` on that is not identified and matches.
pub open spec fn first_match(
    nodes: Seq<BootstrapView>,
    dialed: Option<Seq<AddressView>>,
    remote: Option<AddressView>,
    i: int,
) -> Option<int>
    decreases nodes.len() - i,
{
    if i < 0 || i >= nodes.len() {
        None
    } else if nodes[i].peer_id is None && addresses_match(nodes[i].addrs, dialed, remote) {
        Some(i)
    } else {
        first_match(nodes, dialed, remote, i + 1)
    }
}

/// Whether a peer is known to be at `addr`: it was dialed there, or its
/// connection comes from there.
pub open spec fn is_at(
    addr: AddressView,
    dialed: Option<Seq<AddressView>>,
    remote: Option<AddressView>,
) -> bool {
    ||| dialed matches Some(d) && d.contains(addr)
    ||| remote matches Some(r) && without_peer(addr) == without_peer(r)
}

/// The first of the addresses that a peer says it listens on, where the peer is
/// known to be at it.
pub open spec fn routed(
    listen: Seq<AddressView>,
    dialed: Option<Seq<AddressView>>,
    remote: Option<AddressView>,
) -> Option<AddressView> {
    if listen.len() > 0 && is_at(listen[0], dialed, remote) {
        Some(listen[0])
    } else {
        None
    }
}

impl<E> DiscoveryView<E> {
    /// Whether `peer` is connected, but neither outbound nor inbound.
    pub open spec fn is_ephemeral(self, peer: PeerId) -> bool {
        self.active.contains_key(peer) && !self.outbound.contains_key(peer) && !self.inbound.contains(
            peer,
        )
    }

    /// Whether `peer` is a configured peer.
    pub open spec fn is_persistent(self, peer: PeerId) -> bool {
        exists|i: int| 0 <= i < self.bootstrap.len() && (#[trigger] self.bootstrap[i]).peer_id == Some(peer)
    }

    /// Whether `connection` is one of the connections of `peer`.
    pub open spec fn is_active(self, peer: PeerId, connection: ConnectionId) -> bool {
        self.active.contains_key(peer) && self.active[peer].contains(connection)
    }

    /// The remote address of `connection`.
    pub open spec fn remote_of(self, connection: ConnectionId) -> Option<AddressView> {
        if self.connections.contains_key(connection) {
            Some(self.connections[connection].remote_addr)
        } else {
            None
        }
    }

    /// Discovery after `peer`, on `connection`, was matched against the
    /// configured peers.
    pub open spec fn identified(
        self,
        connection: ConnectionId,
        peer: PeerId,
        dialed: Option<Seq<AddressView>>,
    ) -> DiscoveryView<E> {
        if self.is_persistent(peer) {
            self
        } else {
            match first_match(self.bootstrap, dialed, self.remote_of(connection), 0) {
                None => self,
                Some(i) => DiscoveryView {
                    bootstrap: self.bootstrap.update(
                        i,
                        BootstrapView { peer_id: Some(peer), ..self.bootstrap[i] },
                    ),
                    ..self
                },
            }
        }
    }

    /// Discovery with what an identified peer says of itself.
    pub open spec fn recorded(self, peer: PeerId, listen: Seq<AddressView>, record: Option<E>) -> DiscoveryView<
        E,
    > {
        DiscoveryView {
            signed: match record {
                Some(e) => self.signed.insert(peer, e),
                None => self.signed,
            },
            discovered: self.discovered.insert(peer, listen),
            ..self
        }
    }

    /// The connections of `peer`.
    pub open spec fn connections_of(self, peer: PeerId) -> Seq<ConnectionId> {
        if self.active.contains_key(peer) {
            self.active[peer]
        } else {
            Seq::empty()
        }
    }

    /// How a peer that was just connected is classified: the new state, whether
    /// its connection is refused, and what is to be done. `addr` is the address
    /// of the peer for the routing table, if one is known.
    pub open spec fn classified(
        self,
        connection: ConnectionId,
        peer: PeerId,
        addr: Option<AddressView>,
        we_dialed: bool,
    ) -> (DiscoveryView<E>, bool, Seq<ActionView>) {
        if self.config.enabled {
            let routing = match addr {
                Some(a) if self.config.bootstrap_protocol == BootstrapProtocol::Kademlia => seq![
                    ActionView::AddRoutingAddress(peer, a),
                ],
                _ => Seq::empty(),
            };
            if self.outbound.contains_key(peer) || self.inbound.contains(peer) {
                (self, false, routing)
            } else if self.state == State::Idle && self.outbound.len() < self.config.num_outbound_peers {
                (
                    DiscoveryView {
                        outbound: self.outbound.insert(peer, OutboundState::Pending),
                        ..self
                    },
                    false,
                    seq![ActionView::QueueConnectRequest(peer)] + routing,
                )
            } else {
                let close = seq![
                    ActionView::QueueClose(
                        peer,
                        connection,
                        Some(self.config.ephemeral_connection_timeout),
                    ),
                ];
                let extend = if self.state is Extending {
                    seq![ActionView::MakeExtensionStep]
                } else {
                    Seq::empty()
                };
                (self, false, close + extend + routing)
            }
        } else if we_dialed {
            (
                DiscoveryView {
                    outbound: self.outbound.insert(peer, OutboundState::Confirmed),
                    ..self
                },
                false,
                Seq::empty(),
            )
        } else if self.inbound.len() < self.config.num_inbound_peers {
            (DiscoveryView { inbound: self.inbound.insert(peer), ..self }, false, Seq::empty())
        } else {
            (self, true, seq![ActionView::QueueClose(peer, connection, None)])
        }
    }

    /// What becomes of a peer that has identified itself on a connection: the
    /// new state, whether the peer counts as connected already, and what is to
    /// be done.
    pub open spec fn new_peer(
        self,
        connection: ConnectionId,
        peer: PeerId,
        listen: Seq<AddressView>,
        record: Option<E>,
        dialed: Option<Seq<AddressView>>,
        we_dialed: bool,
    ) -> (DiscoveryView<E>, bool, Seq<ActionView>) {
        let matched = self.identified(connection, peer, dialed);
        let known = matched.recorded(peer, listen, record);
        let counted = if matched.discovered.contains_key(peer) {
            seq![ActionView::RemoveDialInProgress(connection)]
        } else {
            seq![ActionView::RemoveDialInProgress(connection), ActionView::IncrementDiscovered]
        };
        if self.is_active(peer, connection) {
            (self, true, Seq::empty())
        } else if self.config.persistent_peers_only && !matched.is_persistent(peer) {
            (matched, true, seq![ActionView::QueueClose(peer, connection, None)])
        } else if self.active.contains_key(peer) && self.active[peer].len()
            >= self.config.max_connections_per_peer {
            (known, true, counted.push(ActionView::QueueClose(peer, connection, None)))
        } else {
            let connected = DiscoveryView {
                active: known.active.insert(peer, known.connections_of(peer).push(connection)),
                ..known
            };
            let (next, refused, actions) = connected.classified(
                connection,
                peer,
                routed(listen, dialed, self.remote_of(connection)),
                we_dialed,
            );
            (
                next,
                refused || self.active.contains_key(peer),
                (counted + actions).push(ActionView::UpdateMetrics),
            )
        }
    }

    /// Discovery after a connection of a peer was closed; whether it was the
    /// last.
    pub open spec fn closed(self, peer: PeerId, connection: ConnectionId, was_last: bool) -> DiscoveryView<E> {
        let left = without_connection(self.connections_of(peer), connection);
        DiscoveryView {
            connections: self.connections.remove(connection),
            active: if !self.active.contains_key(peer) {
                self.active
            } else if left.len() == 0 {
                self.active.remove(peer)
            } else {
                self.active.insert(peer, left)
            },
            outbound: if was_last {
                self.outbound.remove(peer)
            } else {
                self.outbound
            },
            inbound: if was_last && !self.outbound.contains_key(peer) {
                self.inbound.remove(peer)
            } else {
                self.inbound
            },
            ..self
        }
    }

    /// Discovery after a peer with no connection left was forgotten, and what
    /// is to be done. How many requests the peer has made lately is not forgotten:
    /// the limit on them holds across connections.
    pub open spec fn forgotten(self, peer: PeerId) -> (DiscoveryView<E>, Seq<ActionView>) {
        let listen = if self.discovered.contains_key(peer) {
            self.discovered[peer]
        } else {
            Seq::empty()
        };
        let rest = DiscoveryView {
            discovered: self.discovered.remove(peer),
            signed: self.signed.remove(peer),
            ..self
        };
        let actions = seq![ActionView::RemoveConnectRequestDone(peer)];
        match first_with_peer(self.bootstrap, peer, 0) {
            Some(i) => (
                DiscoveryView {
                    bootstrap: self.bootstrap.update(
                        i,
                        BootstrapView { peer_id: None, ..self.bootstrap[i] },
                    ),
                    ..rest
                },
                actions.push(ActionView::ClearDialDone(peer, self.bootstrap[i].addrs)),
            ),
            None => if self.config.enabled {
                (rest, actions)
            } else {
                (rest, actions.push(ActionView::ClearDialDone(peer, listen)))
            },
        }
    }
}

/// What an identified peer says of itself.
pub struct PeerIdentity<E> {
    /// The addresses that it says it listens on.
    pub listen_addrs: Vec<Multiaddr>,
    /// Its signed record, where it sent one.
    pub signed_peer_record: Option<E>,
}

/// What is known of the dialing of a peer.
pub struct DialInfo {
    /// The addresses of the dial of the peer in progress, if there is one.
    pub dialed_addrs: Option<Vec<Multiaddr>>,
    /// Whether another dial of the peer is in progress, or one is done.
    pub we_dialed: bool,
}

/// An address that may be missing, as a value.
pub open spec fn address_view(a: Option<Multiaddr>) -> Option<AddressView> {
    match a {
        Some(a) => Some(a@),
        None => None,
    }
}

/// The addresses of the dial in progress, as values.
pub open spec fn dialed_view(d: Option<Vec<Multiaddr>>) -> Option<Seq<AddressView>> {
    match d {
        Some(a) => Some(addresses(a@)),
        None => None,
    }
}

/// What follows once a connection was closed: the outbound peers are repaired
/// where needed, then a peer with no connection left is forgotten, and then the
/// metrics are updated.
#[derive(Clone, Copy, Debug, PartialEq, Eq, Structural)]
pub struct ClosedConnection {
    /// Whether the outbound peers are to be repaired.
    pub repair_outbound_peers: bool,
    /// Whether the peer is to be forgotten, with
    /// [`Discovery::cleanup_peer_on_disconnect`].
    pub forget_peer: bool,
}

/// Copies of addresses.
fn copy_addresses(addrs: &Vec<Multiaddr>) -> (r: Vec<Multiaddr>)
    ensures
        addresses(r@) == addresses(addrs@),
{
    let mut out: Vec<Multiaddr> = Vec::new();
    let mut i: usize = 0;
    while i < addrs.len()
        invariant
            i <= addrs@.len(),
            out@.len() == i,
            forall|j: int| 0 <= j < i ==> (#[trigger] out@[j])@ == addrs@[j]@,
        decreases addrs@.len() - i,
    {
        out.push(addrs[i].copy());
        i = i + 1;
    }
    assert(addresses(out@) =~= addresses(addrs@));
    out
}

proof fn lemma_addresses_contains(addrs: Seq<Multiaddr>, a: AddressView)
    ensures
        holds_address(addrs, a) == addresses(addrs).contains(a),
{
    if holds_address(addrs, a) {
        let i = choose|i: int| 0 <= i < addrs.len() && (#[trigger] addrs[i])@ == a;
        assert(addresses(addrs)[i] == a);
    }
    if addresses(addrs).contains(a) {
        let i = choose|i: int| 0 <= i < addresses(addrs).len() && addresses(addrs)[i] == a;
        assert(addrs[i]@ == a);
    }
}

/// Whether two optional peers are the same.
fn same_peer(a: &Option<PeerId>, b: &PeerId) -> (r: bool)
    ensures
        r == (*a == Some(*b)),
{
    match a {
        Some(p) => p.same(b),
        None => false,
    }
}

/// Whether `ids` holds `c`.
fn holds_connection(ids: &Vec<ConnectionId>, c: ConnectionId) -> (r: bool)
    ensures
        r == ids@.contains(c),
{
    let mut i: usize = 0;
    while i < ids.len()
        invariant
            i <= ids@.len(),
            forall|j: int| 0 <= j < i ==> ids@[j] != c,
        decreases ids@.len() - i,
    {
        if ids[i] == c {
            return true;
        }
        i = i + 1;
    }
    false
}

/// Whether a configured peer with the addresses `addrs` matches.
fn matches_addresses(
    addrs: &Vec<Multiaddr>,
    dialed: &Option<Vec<Multiaddr>>,
    remote: Option<&Multiaddr>,
) -> (r: bool)
    ensures
        r == addresses_match(
            addresses(addrs@),
            dialed_view(*dialed),
            match remote {
                Some(a) => Some(a@),
                None => None,
            },
        ),
{
    match dialed {
        Some(d) => {
            let mut i: usize = 0;
            while i < d.len()
                invariant
                    *dialed == Some(*d),
                    i <= d@.len(),
                    forall|j: int|
                        0 <= j < i ==> !addresses(addrs@).contains((#[trigger] addresses(d@)[j])),
                decreases d@.len() - i,
            {
                proof {
                    lemma_addresses_contains(addrs@, d@[i as int]@);
                }
                if contains_address(addrs, &d[i]) {
                    proof {
                        let views = dialed_view(*dialed)->Some_0;
                        assert(views[i as int] == d@[i as int]@);
                        assert(addresses(addrs@).contains(views[i as int]));
                    }
                    return true;
                }
                i = i + 1;
            }
            false
        },
        None => match remote {
            Some(r) => {
                let stripped = r.strip_peer_id();
                let mut i: usize = 0;
                while i < addrs.len()
                    invariant
                        *dialed is None,
                        remote == Some(r),
                        i <= addrs@.len(),
                        stripped@ == without_peer(r@),
                        forall|j: int|
                            0 <= j < i ==> without_peer(#[trigger] addresses(addrs@)[j])
                                != without_peer(r@),
                    decreases addrs@.len() - i,
                {
                    let candidate = addrs[i].strip_peer_id();
                    if stripped.same(&candidate) {
                        assert(without_peer(addresses(addrs@)[i as int]) == without_peer(r@));
                        return true;
                    }
                    i = i + 1;
                }
                false
            },
            None => false,
        },
    }
}

impl<E> Discovery<E> {
    /// The maps are well formed.
    pub open spec fn wf(self) -> bool {
        &&& self.discovered_peers.wf()
        &&& self.signed_peer_records.wf()
        &&& self.active_connections.wf()
        &&& self.connections.wf()
        &&& self.outbound_peers.wf()
        &&& self.inbound_peers.wf()
    }

    /// Discovery without connections.
    pub fn new(config: Config, bootstrap_nodes: Vec<Multiaddr>) -> (r: Self)
        ensures
            r.wf(),
            r@ == (DiscoveryView::<E> {
                config,
                state: initial_state(config, bootstrap_nodes@.len() > 0),
                bootstrap: addresses(bootstrap_nodes@).map_values(|a: AddressView| node_of(a)),
                discovered: Map::empty(),
                signed: Map::empty(),
                active: Map::empty(),
                connections: Map::empty(),
                outbound: Map::empty(),
                inbound: Set::empty(),
            }),
    {
        let state = if config.enabled && bootstrap_nodes.len() > 0 {
            match config.bootstrap_protocol {
                BootstrapProtocol::Kademlia => State::Bootstrapping,
                BootstrapProtocol::Full => State::Extending(config.num_outbound_peers),
            }
        } else {
            State::Idle
        };
        let ghost all = bootstrap_nodes@;
        let mut nodes: Vec<BootstrapNode> = Vec::new();
        let mut i: usize = 0;
        while i < bootstrap_nodes.len()
            invariant
                all == bootstrap_nodes@,
                i <= all.len(),
                nodes@.len() == i,
                forall|j: int| 0 <= j < i ==> (#[trigger] nodes@[j])@ == node_of(all[j]@),
            decreases all.len() - i,
        {
            let node = single_node(&bootstrap_nodes[i]);
            nodes.push(node);
            i = i + 1;
        }
        let r = Discovery {
            config,
            state,
            bootstrap_nodes: nodes,
            discovered_peers: OrdMap::new(),
            signed_peer_records: OrdMap::new(),
            active_connections: OrdMap::new(),
            connections: OrdMap::new(),
            outbound_peers: OrdMap::new(),
            inbound_peers: OrdMap::new(),
        };
        proof {
            assert(r@.bootstrap =~= addresses(all).map_values(|a: AddressView| node_of(a)));
            assert(r@.discovered =~= Map::<PeerId, Seq<AddressView>>::empty());
            assert(r@.active =~= Map::<PeerId, Seq<ConnectionId>>::empty());
            assert(r@.connections =~= Map::<ConnectionId, ConnectionView>::empty());
            assert(r@.inbound =~= Set::<PeerId>::empty());
        }
        r
    }

    /// Whether peers are discovered at all.
    pub fn is_enabled(&self) -> (r: bool)
        ensures
            r == self.config.enabled,
    {
        self.config.enabled
    }

    /// Whether `peer_id` is an outbound peer.
    pub fn is_outbound_peer(&self, peer_id: &PeerId) -> (r: bool)
        requires
            self.wf(),
        ensures
            r == self@.outbound.contains_key(*peer_id),
    {
        self.outbound_peers.contains_key(peer_id)
    }

    /// Whether `peer_id` is an inbound peer.
    pub fn is_inbound_peer(&self, peer_id: &PeerId) -> (r: bool)
        requires
            self.wf(),
        ensures
            r == self@.inbound.contains(*peer_id),
    {
        self.inbound_peers.contains_key(peer_id)
    }

    /// Whether `peer_id` is a configured peer.
    pub fn is_persistent_peer(&self, peer_id: &PeerId) -> (r: bool)
        ensures
            r == self@.is_persistent(*peer_id),
    {
        let mut i: usize = 0;
        while i < self.bootstrap_nodes.len()
            invariant
                i <= self.bootstrap_nodes@.len(),
                forall|j: int| 0 <= j < i ==> (#[trigger] self@.bootstrap[j]).peer_id != Some(*peer_id),
            decreases self.bootstrap_nodes@.len() - i,
        {
            if same_peer(&self.bootstrap_nodes[i].peer_id, peer_id) {
                assert(self@.bootstrap[i as int].peer_id == Some(*peer_id));
                return true;
            }
            i = i + 1;
        }
        false
    }

    /// The inbound peers.
    pub fn inbound_peer_ids(&self) -> (r: Vec<PeerId>)
        requires
            self.wf(),
        ensures
            r@.to_set() == self@.inbound,
            r@.no_duplicates(),
            r@ == self.inbound_peers.keys(),
    {
        let mut out: Vec<PeerId> = Vec::new();
        let mut i: usize = 0;
        while i < self.inbound_peers.entries.len()
            invariant
                i <= self.inbound_peers.entries@.len(),
                out@ =~= self.inbound_peers.keys().subrange(0, i as int),
            decreases self.inbound_peers.entries@.len() - i,
        {
            out.push(self.inbound_peers.entries[i].0);
            i = i + 1;
        }
        proof {
            let keys = self.inbound_peers.keys();
            assert(out@ =~= keys);
            assert forall|p: PeerId| keys.to_set().contains(p) == self@.inbound.contains(p) by {
                if self@.inbound.contains(p) {
                    let k = self.inbound_peers.index_of(p);
                    assert(keys[k] == p);
                }
                if keys.contains(p) {
                    let k = choose|k: int| 0 <= k < keys.len() && keys[k] == p;
                    assert(self.inbound_peers.entries@[k].0 == p);
                }
            }
            assert(keys.to_set() =~= self@.inbound);
            assert forall|a: int, b: int| 0 <= a < keys.len() && 0 <= b < keys.len() && a != b implies keys[a]
                != keys[b] by {
                if keys[a] == keys[b] {
                    self.inbound_peers.lemma_unique(a, b);
                }
            }
        }
        out
    }

    /// Whether there is room for another inbound peer.
    pub fn has_inbound_capacity(&self) -> (r: bool)
        requires
            self.wf(),
        ensures
            r == (self@.inbound.len() < self.config.num_inbound_peers),
    {
        proof {
            self.inbound_peers.lemma_len();
        }
        self.inbound_peers.len() < self.config.num_inbound_peers
    }

    /// Whether `peer_id` is connected, but neither outbound nor inbound.
    pub fn is_ephemeral_peer(&self, peer_id: &PeerId) -> (r: bool)
        requires
            self.wf(),
        ensures
            r == self@.is_ephemeral(*peer_id),
    {
        self.active_connections.contains_key(peer_id) && !self.outbound_peers.contains_key(peer_id)
            && !self.inbound_peers.contains_key(peer_id)
    }

    /// Make an ephemeral peer an inbound peer, where there is room. Whether
    /// that was done; the metrics are then to be updated.
    ///
    /// A connection that is queued for closing stays open, since that of an
    /// inbound peer is not closed.
    pub fn promote_to_inbound(&mut self, peer_id: PeerId) -> (r: bool)
        requires
            old(self).wf(),
        ensures
            final(self).wf(),
            r == (old(self)@.is_ephemeral(peer_id) && old(self)@.inbound.len()
                < old(self).config.num_inbound_peers),
            final(self)@ == if r {
                DiscoveryView { inbound: old(self)@.inbound.insert(peer_id), ..old(self)@ }
            } else {
                old(self)@
            },
    {
        if !self.is_ephemeral_peer(&peer_id) || !self.has_inbound_capacity() {
            return false;
        }
        self.inbound_peers.insert(peer_id, ());
        assert(self@.inbound =~= old(self)@.inbound.insert(peer_id));
        true
    }

    /// Take an inbound peer out of the inbound peers and have its connections
    /// closed. Nothing where it is no inbound peer.
    pub fn evict_inbound_peer(&mut self, peer_id: PeerId) -> (r: Option<Vec<Action>>)
        requires
            old(self).wf(),
        ensures
            final(self).wf(),
            r is Some == old(self)@.inbound.contains(peer_id),
            final(self)@ == (DiscoveryView {
                inbound: old(self)@.inbound.remove(peer_id),
                ..old(self)@
            }),
            r matches Some(actions) ==> action_views(actions@) == old(self)@.connections_of(
                peer_id,
            ).map_values(|c: ConnectionId| ActionView::QueueClose(peer_id, c, None)).push(
                ActionView::UpdateMetrics,
            ),
    {
        let ghost before = self@;
        if self.inbound_peers.remove(&peer_id).is_none() {
            assert(self@.inbound =~= before.inbound.remove(peer_id));
            return None;
        }
        assert(self@.inbound =~= before.inbound.remove(peer_id));
        let ghost close = |c: ConnectionId| ActionView::QueueClose(peer_id, c, None);
        let mut actions: Vec<Action> = Vec::new();
        if let Some(ids) = self.active_connections.get(&peer_id) {
            let mut i: usize = 0;
            while i < ids.len()
                invariant
                    i <= ids@.len(),
                    close == (|c: ConnectionId| ActionView::QueueClose(peer_id, c, None)),
                    action_views(actions@) =~= ids@.map_values(close).subrange(0, i as int),
                decreases ids@.len() - i,
            {
                let ghost now = actions@;
                actions.push(Action::QueueClose(peer_id, ids[i], None));
                assert(action_views(actions@) =~= action_views(now).push(close(ids@[i as int])));
                i = i + 1;
            }
            assert(action_views(actions@) =~= ids@.map_values(close));
            assert(before.connections_of(peer_id) == ids@);
        } else {
            assert(before.connections_of(peer_id) =~= Seq::<ConnectionId>::empty());
            assert(action_views(actions@) =~= before.connections_of(peer_id).map_values(close));
        }
        let ghost closes = actions@;
        actions.push(Action::UpdateMetrics);
        assert(action_views(actions@) =~= action_views(closes).push(ActionView::UpdateMetrics));
        Some(actions)
    }

    /// Add a configured peer with the address `addr`, unless one has it.
    pub fn add_bootstrap_node(&mut self, addr: Multiaddr)
        requires
            old(self).wf(),
        ensures
            final(self).wf(),
            final(self)@ == if first_with_address(old(self)@.bootstrap, addr@, 0) is Some {
                old(self)@
            } else {
                DiscoveryView { bootstrap: old(self)@.bootstrap.push(node_of(addr@)), ..old(self)@ }
            },
    {
        if self.find_address(&addr).is_some() {
            return;
        }
        let node = single_node(&addr);
        self.bootstrap_nodes.push(node);
        assert(self@.bootstrap =~= old(self)@.bootstrap.push(node@));
    }

    /// Remove the first configured peer with the address `addr`; whether there
    /// was one.
    pub fn remove_bootstrap_node(&mut self, addr: &Multiaddr) -> (r: bool)
        requires
            old(self).wf(),
        ensures
            final(self).wf(),
            r == first_with_address(old(self)@.bootstrap, addr@, 0) is Some,
            final(self)@ == match first_with_address(old(self)@.bootstrap, addr@, 0) {
                Some(i) => DiscoveryView { bootstrap: old(self)@.bootstrap.remove(i), ..old(self)@ },
                None => old(self)@,
            },
    {
        match self.find_address(addr) {
            Some(i) => {
                self.bootstrap_nodes.remove(i);
                assert(self@.bootstrap =~= old(self)@.bootstrap.remove(i as int));
                true
            },
            None => false,
        }
    }

    /// The identifier of the first configured peer with the address `addr`,
    /// once it is known.
    pub fn get_peer_id_for_addr(&self, addr: &Multiaddr) -> (r: Option<PeerId>)
        ensures
            r == (match first_with_address(self@.bootstrap, addr@, 0) {
                Some(i) => self@.bootstrap[i].peer_id,
                None => None,
            }),
    {
        match self.find_address(addr) {
            Some(i) => self.bootstrap_nodes[i].peer_id,
            None => None,
        }
    }

    /// The first configured peer with the address `addr`.
    fn find_address(&self, addr: &Multiaddr) -> (r: Option<usize>)
        ensures
            match r {
                Some(i) => i < self.bootstrap_nodes@.len() && first_with_address(
                    self@.bootstrap,
                    addr@,
                    0,
                ) == Some(i as int),
                None => first_with_address(self@.bootstrap, addr@, 0) is None,
            },
    {
        let mut i: usize = 0;
        while i < self.bootstrap_nodes.len()
            invariant
                i <= self.bootstrap_nodes@.len(),
                first_with_address(self@.bootstrap, addr@, 0) == first_with_address(
                    self@.bootstrap,
                    addr@,
                    i as int,
                ),
            decreases self.bootstrap_nodes@.len() - i,
        {
            proof {
                lemma_addresses_contains(self.bootstrap_nodes@[i as int].addrs@, addr@);
                assert(self@.bootstrap[i as int].addrs == addresses(
                    self.bootstrap_nodes@[i as int].addrs@,
                ));
            }
            if contains_address(&self.bootstrap_nodes[i].addrs, addr) {
                return Some(i);
            }
            i = i + 1;
        }
        None
    }

    /// What lets a removed persistent peer be dialed no longer: its address,
    /// without the peer that it names, and the peer, where it is known, are
    /// taken out of what was dialed.
    pub fn cancel_dial_attempts(addr: &Multiaddr, peer_id: Option<PeerId>) -> (r: Vec<Action>)
        ensures
            action_views(r@) == (match peer_id {
                Some(p) => seq![
                    ActionView::RemoveDialDoneAddress(without_peer(addr@)),
                    ActionView::RemoveDialDonePeer(p),
                ],
                None => seq![ActionView::RemoveDialDoneAddress(without_peer(addr@))],
            }),
    {
        let mut actions: Vec<Action> = Vec::new();
        actions.push(Action::RemoveDialDoneAddress(addr.strip_peer_id()));
        if let Some(p) = peer_id {
            actions.push(Action::RemoveDialDonePeer(p));
        }
        assert(action_views(actions@) =~= (match peer_id {
            Some(p) => seq![
                ActionView::RemoveDialDoneAddress(without_peer(addr@)),
                ActionView::RemoveDialDonePeer(p),
            ],
            None => seq![ActionView::RemoveDialDoneAddress(without_peer(addr@))],
        }));
        actions
    }

    /// Match `peer_id`, on `connection_id`, against the configured peers.
    fn update_bootstrap_node_peer_id(
        &mut self,
        connection_id: ConnectionId,
        peer_id: PeerId,
        dialed: &Option<Vec<Multiaddr>>,
    )
        requires
            old(self).wf(),
        ensures
            final(self).wf(),
            final(self)@ == old(self)@.identified(connection_id, peer_id, dialed_view(*dialed)),
            final(self).discovered_peers == old(self).discovered_peers,
            final(self).signed_peer_records == old(self).signed_peer_records,
            final(self).active_connections == old(self).active_connections,
            final(self).connections == old(self).connections,
            final(self).outbound_peers == old(self).outbound_peers,
            final(self).inbound_peers == old(self).inbound_peers,
            final(self).config == old(self).config,
            final(self).state == old(self).state,
    {
        if self.is_persistent_peer(&peer_id) {
            return;
        }
        let ghost d = dialed_view(*dialed);
        let ghost remote = self@.remote_of(connection_id);
        let mut found: Option<usize> = None;
        {
            let remote_addr = match self.connections.get(&connection_id) {
                Some(c) => Some(&c.remote_addr),
                None => None,
            };
            assert(remote == match remote_addr {
                Some(a) => Some(a@),
                None => None,
            });
            let mut i: usize = 0;
            while i < self.bootstrap_nodes.len()
                invariant_except_break
                    found is None,
                invariant
                    *self == *old(self),
                    d == dialed_view(*dialed),
                    remote == (match remote_addr {
                        Some(a) => Some(a@),
                        None => None,
                    }),
                    i <= self.bootstrap_nodes@.len(),
                    first_match(self@.bootstrap, d, remote, 0) == first_match(
                        self@.bootstrap,
                        d,
                        remote,
                        i as int,
                    ),
                ensures
                    *self == *old(self),
                    match found {
                        Some(k) => k < self.bootstrap_nodes@.len() && first_match(
                            self@.bootstrap,
                            d,
                            remote,
                            0,
                        ) == Some(k as int),
                        None => first_match(self@.bootstrap, d, remote, 0) is None,
                    },
                decreases self.bootstrap_nodes@.len() - i,
            {
                let node = &self.bootstrap_nodes[i];
                assert(self@.bootstrap[i as int] == node@);
                if node.peer_id.is_none() && matches_addresses(&node.addrs, dialed, remote_addr) {
                    found = Some(i);
                    break;
                }
                i = i + 1;
            }
        }
        if let Some(k) = found {
            let ghost before = self@.bootstrap;
            let node = self.bootstrap_nodes.remove(k);
            self.bootstrap_nodes.insert(
                k,
                BootstrapNode { peer_id: Some(peer_id), addrs: node.addrs },
            );
            assert(self@.bootstrap =~= before.update(
                k as int,
                BootstrapView { peer_id: Some(peer_id), ..before[k as int] },
            ));
        }
    }

    /// Take in a peer that has identified itself on a connection. Whether it
    /// counts as connected already, and what is to be done.
    pub fn handle_new_peer(
        &mut self,
        connection_id: ConnectionId,
        peer_id: PeerId,
        info: PeerIdentity<E>,
        dial: DialInfo,
    ) -> (r: (bool, Vec<Action>))
        requires
            old(self).wf(),
        ensures
            final(self).wf(),
            (final(self)@, r.0, action_views(r.1@)) == old(self)@.new_peer(
                connection_id,
                peer_id,
                addresses(info.listen_addrs@),
                info.signed_peer_record,
                dialed_view(dial.dialed_addrs),
                dial.we_dialed,
            ),
    {
        let ghost start = self@;
        let ghost listen = addresses(info.listen_addrs@);
        let ghost want = start.new_peer(
            connection_id,
            peer_id,
            listen,
            info.signed_peer_record,
            dialed_view(dial.dialed_addrs),
            dial.we_dialed,
        );
        let mut actions: Vec<Action> = Vec::new();
        assert(action_views(actions@) =~= Seq::<ActionView>::empty());
        if let Some(ids) = self.active_connections.get(&peer_id) {
            if holds_connection(ids, connection_id) {
                assert(start.is_active(peer_id, connection_id));
                return (true, actions);
            }
        }
        assert(!start.is_active(peer_id, connection_id));
        self.update_bootstrap_node_peer_id(connection_id, peer_id, &dial.dialed_addrs);
        let ghost matched = self@;
        assert(matched.active == start.active);
        if self.config.persistent_peers_only && !self.is_persistent_peer(&peer_id) {
            actions.push(Action::QueueClose(peer_id, connection_id, None));
            assert(action_views(actions@) =~= want.2);
            return (true, actions);
        }
        actions.push(Action::RemoveDialInProgress(connection_id));
        if let Some(envelope) = info.signed_peer_record {
            self.signed_peer_records.insert(peer_id, envelope);
        }
        let ghost at = routed(listen, dialed_view(dial.dialed_addrs), start.remote_of(connection_id));
        let addr = self.routing_address(connection_id, &info.listen_addrs, &dial.dialed_addrs);
        if self.discovered_peers.insert(peer_id, info.listen_addrs).is_none() {
            actions.push(Action::IncrementDiscovered);
        }
        let ghost known = matched.recorded(peer_id, listen, info.signed_peer_record);
        let ghost counted = if matched.discovered.contains_key(peer_id) {
            seq![ActionView::RemoveDialInProgress(connection_id)]
        } else {
            seq![
                ActionView::RemoveDialInProgress(connection_id),
                ActionView::IncrementDiscovered,
            ]
        };
        proof {
            assert(self@.discovered =~= known.discovered);
            assert(self@ == known);
            assert(action_views(actions@) =~= counted);
        }
        let mut already_connected = true;
        match self.active_connections.remove(&peer_id) {
            Some(mut ids) => {
                assert(start.active[peer_id] == ids@);
                if ids.len() >= self.config.max_connections_per_peer {
                    self.active_connections.insert(peer_id, ids);
                    actions.push(Action::QueueClose(peer_id, connection_id, None));
                    proof {
                        assert(self@.active =~= start.active);
                        assert(action_views(actions@) =~= want.2);
                    }
                    return (true, actions);
                }
                ids.push(connection_id);
                self.active_connections.insert(peer_id, ids);
            },
            None => {
                let mut ids: Vec<ConnectionId> = Vec::new();
                ids.push(connection_id);
                assert(ids@ =~= Seq::<ConnectionId>::empty().push(connection_id));
                self.active_connections.insert(peer_id, ids);
                already_connected = false;
            },
        }
        let ghost connected = DiscoveryView {
            active: known.active.insert(peer_id, known.connections_of(peer_id).push(connection_id)),
            ..known
        };
        proof {
            assert(self@.active =~= connected.active);
            assert(self@ == connected);
        }
        let ghost before = actions@;
        let refused = self.classify(
            connection_id,
            peer_id,
            addr,
            dial.we_dialed,
            &mut actions,
        );
        actions.push(Action::UpdateMetrics);
        proof {
            let c = connected.classified(connection_id, peer_id, at, dial.we_dialed);
            assert(action_views(actions@) =~= (counted + c.2).push(ActionView::UpdateMetrics));
        }
        (refused || already_connected, actions)
    }

    /// The first of the addresses that a peer says it listens on, where the peer
    /// is known to be at it.
    fn routing_address(
        &self,
        connection_id: ConnectionId,
        listen_addrs: &Vec<Multiaddr>,
        dialed: &Option<Vec<Multiaddr>>,
    ) -> (r: Option<Multiaddr>)
        requires
            self.wf(),
        ensures
            address_view(r) == routed(
                addresses(listen_addrs@),
                dialed_view(*dialed),
                self@.remote_of(connection_id),
            ),
    {
        if listen_addrs.len() == 0 {
            return None;
        }
        let first = &listen_addrs[0];
        assert(addresses(listen_addrs@)[0] == first@);
        let was_dialed = match dialed {
            Some(d) => {
                proof {
                    lemma_addresses_contains(d@, first@);
                }
                contains_address(d, first)
            },
            None => false,
        };
        let is_remote = match self.connections.get(&connection_id) {
            Some(c) => c.remote_addr.strip_peer_id().same(&first.strip_peer_id()),
            None => false,
        };
        if was_dialed || is_remote {
            Some(first.copy())
        } else {
            None
        }
    }

    /// Classify a peer that was just connected; whether its connection is
    /// refused.
    fn classify(
        &mut self,
        connection_id: ConnectionId,
        peer_id: PeerId,
        addr: Option<Multiaddr>,
        we_dialed: bool,
        actions: &mut Vec<Action>,
    ) -> (r: bool)
        requires
            old(self).wf(),
        ensures
            final(self).wf(),
            ({
                let (next, refused, more) = old(self)@.classified(
                    connection_id,
                    peer_id,
                    address_view(addr),
                    we_dialed,
                );
                &&& final(self)@ == next
                &&& r == refused
                &&& action_views(final(actions)@) == action_views(old(actions)@) + more
            }),
    {
        let ghost start = self@;
        let ghost want = start.classified(connection_id, peer_id, address_view(addr), we_dialed);
        let ghost before = actions@;
        let mut refused = false;
        proof {
            self.outbound_peers.lemma_len();
            self.inbound_peers.lemma_len();
        }
        if self.config.enabled {
            if self.outbound_peers.contains_key(&peer_id) || self.inbound_peers.contains_key(&peer_id) {
            } else if self.state == State::Idle && self.outbound_peers.len()
                < self.config.num_outbound_peers {
                self.outbound_peers.insert(peer_id, OutboundState::Pending);
                actions.push(Action::QueueConnectRequest(peer_id));
            } else {
                actions.push(
                    Action::QueueClose(
                        peer_id,
                        connection_id,
                        Some(self.config.ephemeral_connection_timeout),
                    ),
                );
                if let State::Extending(_) = self.state {
                    actions.push(Action::MakeExtensionStep);
                }
            }
            if self.config.bootstrap_protocol == BootstrapProtocol::Kademlia {
                if let Some(a) = addr {
                    actions.push(Action::AddRoutingAddress(peer_id, a));
                }
            }
        } else if we_dialed {
            self.outbound_peers.insert(peer_id, OutboundState::Confirmed);
        } else if self.inbound_peers.len() < self.config.num_inbound_peers {
            self.inbound_peers.insert(peer_id, ());
            assert(self@.inbound =~= start.inbound.insert(peer_id));
        } else {
            actions.push(Action::QueueClose(peer_id, connection_id, None));
            refused = true;
        }
        proof {
            assert(action_views(actions@) =~= action_views(before) + want.2);
            assert(self@ == want.0);
        }
        refused
    }

    /// Whether closing connections can go on, given whether the queue allows
    /// it: only once the initial discovery is done.
    pub fn can_close(&self, queue_ready: bool) -> (r: bool)
        ensures
            r == (self.state == State::Idle && queue_ready),
    {
        self.state == State::Idle && queue_ready
    }

    /// Whether a connection that is queued for closing is to be closed: one of
    /// an ephemeral peer, or one that is not among the connections of its peer.
    pub fn should_close(&self, peer_id: PeerId, connection_id: ConnectionId) -> (r: bool)
        requires
            self.wf(),
        ensures
            r == ((!self@.outbound.contains_key(peer_id) && !self@.inbound.contains(peer_id))
                || !self@.is_active(peer_id, connection_id)),
    {
        if !self.outbound_peers.contains_key(&peer_id) && !self.inbound_peers.contains_key(&peer_id) {
            return true;
        }
        match self.active_connections.get(&peer_id) {
            Some(ids) => !holds_connection(ids, connection_id),
            None => true,
        }
    }

    /// Take note that a connection was closed; whether it was the last one of
    /// its peer. The dial of the connection, where it was never identified, is
    /// no longer in progress.
    pub fn handle_closed_connection(
        &mut self,
        peer_id: PeerId,
        connection_id: ConnectionId,
        was_last_connection: bool,
    ) -> (r: (Vec<Action>, ClosedConnection))
        requires
            old(self).wf(),
        ensures
            final(self).wf(),
            final(self)@ == old(self)@.closed(peer_id, connection_id, was_last_connection),
            action_views(r.0@) == seq![ActionView::RemoveDialInProgress(connection_id)],
            r.1.repair_outbound_peers == (old(self)@.outbound.contains_key(peer_id)
                && old(self).config.enabled),
            r.1.forget_peer == was_last_connection,
    {
        let ghost start = self@;
        let ghost want = start.closed(peer_id, connection_id, was_last_connection);
        self.connections.remove(&connection_id);
        assert(self@.connections =~= want.connections);
        match self.active_connections.remove(&peer_id) {
            Some(ids) => {
                assert(start.active.contains_key(peer_id));
                assert(start.connections_of(peer_id) == ids@);
                let left = remove_connection(&ids, connection_id);
                if left.len() > 0 {
                    self.active_connections.insert(peer_id, left);
                }
                assert(self@.active =~= want.active);
            },
            None => {
                assert(!start.active.contains_key(peer_id));
                assert(self@.active =~= want.active);
            },
        }
        let mut repair = false;
        if self.outbound_peers.contains_key(&peer_id) {
            if was_last_connection {
                self.outbound_peers.remove(&peer_id);
            }
            repair = self.config.enabled;
        } else if self.inbound_peers.contains_key(&peer_id) {
            if was_last_connection {
                self.inbound_peers.remove(&peer_id);
            }
        }
        proof {
            assert(self@.outbound =~= want.outbound);
            assert(self@.inbound =~= want.inbound);
            assert(self@ == want);
        }
        let mut actions: Vec<Action> = Vec::new();
        actions.push(Action::RemoveDialInProgress(connection_id));
        assert(action_views(actions@) =~= seq![ActionView::RemoveDialInProgress(connection_id)]);
        (
            actions,
            ClosedConnection { repair_outbound_peers: repair, forget_peer: was_last_connection },
        )
    }

    /// Forget a peer with no connection left, so that it can be dialed and
    /// identified again.
    pub fn cleanup_peer_on_disconnect(&mut self, peer_id: PeerId) -> (r: Vec<Action>)
        requires
            old(self).wf(),
        ensures
            final(self).wf(),
            (final(self)@, action_views(r@)) == old(self)@.forgotten(peer_id),
    {
        let ghost start = self@;
        let ghost want = start.forgotten(peer_id);
        let mut actions: Vec<Action> = Vec::new();
        let peer_info = self.discovered_peers.remove(&peer_id);
        self.signed_peer_records.remove(&peer_id);
        actions.push(Action::RemoveConnectRequestDone(peer_id));
        proof {
            assert(self@.discovered =~= start.discovered.remove(peer_id));
            assert(peer_info matches Some(a) ==> start.discovered.contains_key(peer_id)
                && addresses(a@) == start.discovered[peer_id]);
            assert(peer_info is None ==> !start.discovered.contains_key(peer_id));
        }
        let mut i: usize = 0;
        while i < self.bootstrap_nodes.len()
            invariant
                self.wf(),
                start == old(self)@,
                want == start.forgotten(peer_id),
                self@ == (DiscoveryView {
                    discovered: start.discovered.remove(peer_id),
                    signed: start.signed.remove(peer_id),
                    ..start
                }),
                i <= self.bootstrap_nodes@.len(),
                first_with_peer(start.bootstrap, peer_id, 0) == first_with_peer(
                    start.bootstrap,
                    peer_id,
                    i as int,
                ),
                actions@.len() == 1,
                actions@[0]@ == ActionView::RemoveConnectRequestDone(peer_id),
            decreases self.bootstrap_nodes@.len() - i,
        {
            assert(self@.bootstrap[i as int] == self.bootstrap_nodes@[i as int]@);
            if same_peer(&self.bootstrap_nodes[i].peer_id, &peer_id) {
                let ghost before = self@.bootstrap;
                let node = self.bootstrap_nodes.remove(i);
                let addrs = copy_addresses(&node.addrs);
                self.bootstrap_nodes.insert(i, BootstrapNode { peer_id: None, addrs: node.addrs });
                actions.push(Action::ClearDialDone(peer_id, addrs));
                proof {
                    assert(self@.bootstrap =~= before.update(
                        i as int,
                        BootstrapView { peer_id: None, ..before[i as int] },
                    ));
                    assert(action_views(actions@) =~= want.1);
                }
                return actions;
            }
            i = i + 1;
        }
        if !self.config.enabled {
            let addrs = match peer_info {
                Some(a) => a,
                None => Vec::new(),
            };
            proof {
                if peer_info is None {
                    assert(addresses(addrs@) =~= Seq::<AddressView>::empty());
                }
            }
            actions.push(Action::ClearDialDone(peer_id, addrs));
        }
        assert(action_views(actions@) =~= want.1);
        actions
    }
}

/// The configured peer with the one address `addr`.
fn single_node(addr: &Multiaddr) -> (r: BootstrapNode)
    ensures
        r@ == node_of(addr@),
{
    let mut addrs: Vec<Multiaddr> = Vec::new();
    addrs.push(addr.copy());
    assert(addresses(addrs@) =~= seq![addr@]);
    BootstrapNode { peer_id: addr.peer_id(), addrs }
}

/// `ids` without `c`.
fn remove_connection(ids: &Vec<ConnectionId>, c: ConnectionId) -> (r: Vec<ConnectionId>)
    ensures
        r@ == without_connection(ids@, c),
{
    let mut out: Vec<ConnectionId> = Vec::new();
    let mut i: usize = 0;
    assert(ids@.subrange(0, 0) =~= Seq::<ConnectionId>::empty());
    while i < ids.len()
        invariant
            i <= ids@.len(),
            out@ == without_connection(ids@.subrange(0, i as int), c),
        decreases ids@.len() - i,
    {
        proof {
            assert(ids@.subrange(0, i + 1).drop_last() =~= ids@.subrange(0, i as int));
        }
        if ids[i] != c {
            out.push(ids[i]);
        }
        i = i + 1;
    }
    assert(ids@.subrange(0, i as int) =~= ids@);
    out
}

/// An event of the discovery protocols.
#[derive(Clone, Copy, Debug, PartialEq, Eq)]
pub enum NetworkEvent {
    /// A bootstrap query has progressed; whether this was its last step.
    BootstrapProgressed { last: bool },
    /// A bootstrap query has failed.
    BootstrapFailed,
    /// Another event of Kademlia.
    OtherKademlia,
    /// A peer asks for peers.
    PeersRequest,
    /// A peer asks to be an outbound peer.
    ConnectRequest,
    /// A peer answers with peers.
    PeersResponse,
    /// A peer answers whether it is an outbound peer.
    ConnectResponse { accepted: bool },
    /// A request failed: whether it is a known request for peers, or one to be
    /// an outbound peer.
    OutboundFailure { peers_request: bool, connect_request: bool },
    /// Another event of requests and responses.
    OtherRequestResponse,
}

/// What handles an event of the discovery protocols.
#[derive(Clone, Copy, Debug, PartialEq, Eq)]
pub enum Handler {
    SuccessfulBootstrap,
    FailedBootstrap,
    PeersRequest,
    ConnectRequest,
    PeersResponse,
    ConnectResponse { accepted: bool },
    FailedPeersRequest,
    FailedConnectRequest,
    /// Nothing is done.
    Ignore,
}

/// What handles `event` in `state`. The end of a bootstrap counts only while
/// one is in progress.
pub open spec fn handler_for(state: State, event: NetworkEvent) -> Handler {
    match event {
        NetworkEvent::BootstrapProgressed { last } => if last && state == State::Bootstrapping {
            Handler::SuccessfulBootstrap
        } else {
            Handler::Ignore
        },
        NetworkEvent::BootstrapFailed => if state == State::Bootstrapping {
            Handler::FailedBootstrap
        } else {
            Handler::Ignore
        },
        NetworkEvent::OtherKademlia => Handler::Ignore,
        NetworkEvent::PeersRequest => Handler::PeersRequest,
        NetworkEvent::ConnectRequest => Handler::ConnectRequest,
        NetworkEvent::PeersResponse => Handler::PeersResponse,
        NetworkEvent::ConnectResponse { accepted } => Handler::ConnectResponse { accepted },
        NetworkEvent::OutboundFailure { peers_request, connect_request } => if peers_request {
            Handler::FailedPeersRequest
        } else if connect_request {
            Handler::FailedConnectRequest
        } else {
            Handler::Ignore
        },
        NetworkEvent::OtherRequestResponse => Handler::Ignore,
    }
}

impl<E> Discovery<E> {
    /// What handles `network_event`.
    pub fn on_network_event(&self, network_event: NetworkEvent) -> (r: Handler)
        ensures
            r == handler_for(self.state, network_event),
    {
        match network_event {
            NetworkEvent::BootstrapProgressed { last } => {
                if last && self.state == State::Bootstrapping {
                    Handler::SuccessfulBootstrap
                } else {
                    Handler::Ignore
                }
            },
            NetworkEvent::BootstrapFailed => {
                if self.state == State::Bootstrapping {
                    Handler::FailedBootstrap
                } else {
                    Handler::Ignore
                }
            },
            NetworkEvent::OtherKademlia => Handler::Ignore,
            NetworkEvent::PeersRequest => Handler::PeersRequest,
            NetworkEvent::ConnectRequest => Handler::ConnectRequest,
            NetworkEvent::PeersResponse => Handler::PeersResponse,
            NetworkEvent::ConnectResponse { accepted } => Handler::ConnectResponse { accepted },
            NetworkEvent::OutboundFailure { peers_request, connect_request } => {
                if peers_request {
                    Handler::FailedPeersRequest
                } else if connect_request {
                    Handler::FailedConnectRequest
                } else {
                    Handler::Ignore
                }
            },
            NetworkEvent::OtherRequestResponse => Handler::Ignore,
        }
    }
}

} // verus!
