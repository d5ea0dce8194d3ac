//! The state of the network: its peers, the persistent ones among them, and the
//! validators.

use vstd::prelude::*;
use vstd::string::*;

use crate::discovery::state::{
    action_views, addresses, first_with_address, node_of, Action as DiscoveryAction,
    ActionView as DiscoveryActionView, AddressView, ConnectionDirection, ConnectionId, Discovery,
    DiscoveryView,
};
use crate::engine::event::PeerId;
use crate::ident::{Ident, OrdMap, Ranked};
use crate::network::metrics::{Metrics, MetricsView};
use crate::network::multiaddr::{
    multiaddr_components, peer_in, transport_in, without_peer, ComponentView, Multiaddr,
};
use crate::network::peer::{
    address_of_key, copy_bytes, find_address_of_key, has_address, validator_views, LocalNodeInfo,
    LocalNodeView, PeerInfo, PeerType, PeerView, Score, Scores, ValidatorInfo, ValidatorView,
};
use crate::text::{contains_text, texts};

verus! {

/// Work outside the state.
pub enum Action {
    /// Give a peer this score.
    SetScore(PeerId, Score),
    /// Make a peer an explicit peer.
    AddExplicitPeer(PeerId),
    /// Make a peer an explicit peer no longer.
    RemoveExplicitPeer(PeerId),
    /// Dial an address.
    Dial(Multiaddr),
    /// Disconnect a peer if it is connected.
    DisconnectIfConnected(PeerId),
    /// Work outside discovery.
    Discovery(DiscoveryAction),
}

/// Work outside the state, as a value.
pub enum ActionView {
    SetScore(PeerId, Score),
    AddExplicitPeer(PeerId),
    RemoveExplicitPeer(PeerId),
    Dial(AddressView),
    DisconnectIfConnected(PeerId),
    Discovery(DiscoveryActionView),
}

impl View for Action {
    type V = ActionView;

    open spec fn view(&self) -> ActionView {
        match self {
            Action::SetScore(p, s) => ActionView::SetScore(*p, *s),
            Action::AddExplicitPeer(p) => ActionView::AddExplicitPeer(*p),
            Action::RemoveExplicitPeer(p) => ActionView::RemoveExplicitPeer(*p),
            Action::Dial(a) => ActionView::Dial(a@),
            Action::DisconnectIfConnected(p) => ActionView::DisconnectIfConnected(*p),
            Action::Discovery(a) => ActionView::Discovery(a@),
        }
    }
}

/// Work outside the state, as values.
pub open spec fn work(actions: Seq<Action>) -> Seq<ActionView> {
    actions.map_values(|a: Action| a@)
}

/// Work outside discovery is work outside the state.
pub open spec fn discovery_work(actions: Seq<DiscoveryActionView>) -> Seq<ActionView> {
    actions.map_values(|a: DiscoveryActionView| ActionView::Discovery(a))
}

/// Put `more` behind `actions`.
pub fn append_work(actions: &mut Vec<Action>, more: Vec<Action>)
    ensures
        work(final(actions)@) == work(old(actions)@) + work(more@),
{
    let mut more = more;
    let ghost first = actions@;
    let ghost second = more@;
    actions.append(&mut more);
    assert(work(actions@) =~= work(first) + work(second));
}

/// Put work outside discovery behind `actions`.
pub fn append_discovery_work(actions: &mut Vec<Action>, more: Vec<DiscoveryAction>)
    ensures
        work(final(actions)@) == work(old(actions)@) + discovery_work(action_views(more@)),
{
    let mut more = more;
    let ghost all = more@;
    let ghost want = discovery_work(action_views(all));
    assert(work(actions@) =~= work(old(actions)@) + want.subrange(0, 0));
    while more.len() > 0
        invariant
            want == discovery_work(action_views(all)),
            more@.len() <= all.len(),
            more@ == all.subrange(all.len() - more@.len(), all.len() as int),
            work(actions@) == work(old(actions)@) + want.subrange(0, all.len() - more@.len()),
        decreases more@.len(),
    {
        let ghost before = actions@;
        let ghost k = all.len() - more@.len();
        let action = more.remove(0);
        assert(action == all[k]);
        actions.push(Action::Discovery(action));
        proof {
            assert(more@ =~= all.subrange(k + 1, all.len() as int));
            assert(work(actions@) =~= work(before).push(ActionView::Discovery(action@)));
            assert(want[k] == ActionView::Discovery(action@));
            assert(want.subrange(0, k + 1) =~= want.subrange(0, k).push(want[k]));
            assert(work(actions@) =~= work(old(actions)@) + want.subrange(0, k + 1));
        }
    }
    assert(want.subrange(0, all.len() as int) =~= want);
}

/// The state of the network. `E` is what a signed record of a peer is held as,
/// and `C` what a request is answered through.
pub struct State<E, C> {
    /// The requests for sync that are not yet answered.
    pub sync_channels: OrdMap<u64, C>,
    pub discovery: Discovery<E>,
    pub persistent_peer_ids: OrdMap<PeerId, ()>,
    pub persistent_peer_addrs: Vec<Multiaddr>,
    /// The latest validator set.
    pub validator_set: Vec<ValidatorInfo>,
    pub metrics: Metrics,
    /// This node.
    pub local_node: LocalNodeInfo,
    /// Whether persistent peers become explicit peers.
    pub enable_explicit_peering: bool,
    /// Whether gossipsub is in use.
    pub gossipsub: bool,
    /// The scores by roles.
    pub scores: Scores,
    /// The identified peers.
    pub peer_info: OrdMap<PeerId, PeerInfo>,
    /// The public keys proved by peers that are not identified yet.
    pub pending_verified_proofs: OrdMap<PeerId, Vec<u8>>,
}

/// The state of the network, as a value.
#[verifier::reject_recursive_types(E)]
#[verifier::reject_recursive_types(C)]
pub struct StateView<E, C> {
    pub sync_channels: Map<u64, C>,
    pub discovery: DiscoveryView<E>,
    pub persistent_ids: Set<PeerId>,
    pub persistent_addrs: Seq<AddressView>,
    pub validators: Seq<ValidatorView>,
    pub metrics: MetricsView,
    pub local_node: LocalNodeView,
    pub enable_explicit_peering: bool,
    pub gossipsub: bool,
    pub scores: Scores,
    pub peers: Map<PeerId, PeerView>,
    pub pending: Map<PeerId, Seq<u8>>,
}

/// Peers, as values.
pub open spec fn peer_views(peers: Map<PeerId, PeerInfo>) -> Map<PeerId, PeerView> {
    peers.map_values(|i: PeerInfo| i@)
}

/// Proved keys, as values.
pub open spec fn proof_views(proofs: Map<PeerId, Vec<u8>>) -> Map<PeerId, Seq<u8>> {
    proofs.map_values(|k: Vec<u8>| k@)
}

impl<E, C> View for State<E, C> {
    type V = StateView<E, C>;

    open spec fn view(&self) -> StateView<E, C> {
        StateView {
            sync_channels: self.sync_channels@,
            discovery: self.discovery@,
            persistent_ids: self.persistent_peer_ids@.dom(),
            persistent_addrs: addresses(self.persistent_peer_addrs@),
            validators: validator_views(self.validator_set@),
            metrics: self.metrics@,
            local_node: self.local_node@,
            enable_explicit_peering: self.enable_explicit_peering,
            gossipsub: self.gossipsub,
            scores: self.scores,
            peers: peer_views(self.peer_info@),
            pending: proof_views(self.pending_verified_proofs@),
        }
    }
}

/// The validators of a list, each once.
pub open spec fn distinct(validators: Seq<ValidatorView>) -> Seq<ValidatorView>
    decreases validators.len(),
{
    if validators.len() == 0 {
        Seq::empty()
    } else {
        let rest = distinct(validators.drop_last());
        if rest.contains(validators.last()) {
            rest
        } else {
            rest.push(validators.last())
        }
    }
}

/// The topics in whose mesh `p` is, each once.
pub open spec fn topics_of(meshes: Seq<(Seq<char>, Seq<PeerId>)>, p: PeerId) -> Seq<Seq<char>>
    decreases meshes.len(),
{
    if meshes.len() == 0 {
        Seq::empty()
    } else {
        let rest = topics_of(meshes.drop_last(), p);
        let (topic, members) = meshes.last();
        if members.contains(p) && !rest.contains(topic) {
            rest.push(topic)
        } else {
            rest
        }
    }
}

/// The peers that the addresses name.
pub open spec fn named_peers(addrs: Seq<AddressView>) -> Set<PeerId> {
    Set::new(|p: PeerId| names_peer(addrs, p))
}

/// Whether one of the addresses names `p`.
pub open spec fn names_peer(addrs: Seq<AddressView>, p: PeerId) -> bool {
    exists|i: int| 0 <= i < addrs.len() && peer_in(#[trigger] addrs[i]) == Some(p)
}

impl<E, C> StateView<E, C> {
    /// Whether `p`, on `connection`, is a persistent peer: by its identifier,
    /// or by the address it is connected from.
    pub open spec fn is_persistent(self, p: PeerId, connection: ConnectionId) -> bool {
        self.persistent_ids.contains(p) || match self.discovery.remote_of(connection) {
            Some(r) => exists|i: int|
                0 <= i < self.persistent_addrs.len() && without_peer(
                    #[trigger] self.persistent_addrs[i],
                ) == without_peer(r),
            None => false,
        }
    }

    /// What is known of a peer that has proved to hold the public key `key`.
    pub open spec fn with_key(self, info: PeerView, key: Seq<u8>) -> PeerView {
        let address = address_of_key(self.validators, key);
        let peer_type = PeerType { validator: address is Some, ..info.peer_type };
        PeerView {
            consensus_public_key: Some(key),
            consensus_address: address,
            peer_type,
            score: self.scores.score_of(peer_type),
            ..info
        }
    }

    /// The state with what is known of `p` now, and the score of `p` if its
    /// type has changed.
    pub open spec fn changed(self, p: PeerId, info: PeerView) -> (StateView<E, C>, Option<Score>) {
        let was = self.peers[p];
        (
            StateView {
                peers: self.peers.insert(p, info),
                metrics: self.metrics.update_peer_labels(p, was, info),
                ..self
            },
            if info.peer_type != was.peer_type {
                Some(info.score)
            } else {
                None
            },
        )
    }

    /// The state after `p` has proved to hold the public key `key`.
    pub open spec fn proved(self, p: PeerId, key: Seq<u8>) -> (StateView<E, C>, Option<Score>) {
        if self.peers.contains_key(p) {
            self.changed(p, self.with_key(self.peers[p], key))
        } else {
            (StateView { pending: self.pending.insert(p, key), ..self }, None)
        }
    }

    /// The state after `p` was classified anew.
    pub open spec fn reclassified(self, p: PeerId) -> (StateView<E, C>, Option<Score>) {
        if self.peers.contains_key(p) {
            match self.peers[p].consensus_public_key {
                Some(key) => self.changed(p, self.with_key(self.peers[p], key)),
                None => (self, None),
            }
        } else {
            (self, None)
        }
    }

    /// The state after the peers in `ids` were classified anew, and those whose
    /// type has changed.
    pub open spec fn all_reclassified(self, ids: Seq<PeerId>) -> (
        StateView<E, C>,
        Seq<(PeerId, Score)>,
    )
        decreases ids.len(),
    {
        if ids.len() == 0 {
            (self, Seq::empty())
        } else {
            let (before, changes) = self.all_reclassified(ids.drop_last());
            let (after, score) = before.reclassified(ids.last());
            match score {
                Some(s) => (after, changes.push((ids.last(), s))),
                None => (after, changes),
            }
        }
    }

    /// The state with a new validator set, with this node classified anew.
    pub open spec fn with_validators(self, validators: Seq<ValidatorView>) -> StateView<E, C> {
        let is_validator = match self.local_node.consensus_address {
            Some(a) => has_address(validators, a),
            None => false,
        };
        let local_node = LocalNodeView { is_validator, ..self.local_node };
        StateView {
            validators,
            local_node,
            metrics: if is_validator != self.local_node.is_validator {
                self.metrics.set_local(local_node)
            } else {
                self.metrics
            },
            ..self
        }
    }

    /// The direction of the connection to `p`.
    pub open spec fn direction_of(self, p: PeerId) -> Option<ConnectionDirection> {
        if self.discovery.outbound.contains_key(p) {
            Some(ConnectionDirection::Outbound)
        } else if self.discovery.inbound.contains(p) {
            Some(ConnectionDirection::Inbound)
        } else {
            None
        }
    }

    /// What is known of a peer that was known as `was` once it was identified
    /// again. The address of an outbound connection is kept.
    pub open spec fn seen_again(
        self,
        was: PeerView,
        persistent: bool,
        direction: Option<ConnectionDirection>,
        address: AddressView,
        moniker: Seq<char>,
    ) -> PeerView {
        let moved = direction == Some(ConnectionDirection::Outbound) || was.connection_direction
            != Some(ConnectionDirection::Outbound);
        let peer_type = PeerType { persistent, ..was.peer_type };
        PeerView {
            moniker,
            address: if moved {
                address
            } else {
                was.address
            },
            connection_direction: if moved {
                direction
            } else {
                was.connection_direction
            },
            peer_type,
            score: self.scores.score_of(peer_type),
            ..was
        }
    }

    /// What is known of a peer that was identified for the first time.
    pub open spec fn first_seen(
        self,
        persistent: bool,
        direction: Option<ConnectionDirection>,
        address: AddressView,
        moniker: Seq<char>,
    ) -> PeerView {
        let peer_type = PeerType { persistent, validator: false };
        PeerView {
            moniker,
            address,
            consensus_address: None,
            consensus_public_key: None,
            peer_type,
            connection_direction: direction,
            score: self.scores.score_of(peer_type),
            topics: Seq::empty(),
            is_explicit: false,
        }
    }

    /// The state with a new peer `p`, to which a key that it has proved to hold
    /// already applies; and the score of `p`.
    pub open spec fn peer_added(self, p: PeerId, info: PeerView) -> (StateView<E, C>, Score) {
        let added = StateView {
            peers: self.peers.insert(p, info),
            metrics: self.metrics.record_new_peer(p, info),
            pending: self.pending.remove(p),
            ..self
        };
        if self.pending.contains_key(p) {
            let (next, score) = added.proved(p, self.pending[p]);
            (
                next,
                match score {
                    Some(s) => s,
                    None => info.score,
                },
            )
        } else {
            (added, info.score)
        }
    }

    /// The state after `p` was identified on `connection`, at `address`, with
    /// the given moniker; and the score of `p`.
    pub open spec fn identified(
        self,
        p: PeerId,
        connection: ConnectionId,
        address: AddressView,
        moniker: Seq<char>,
    ) -> (StateView<E, C>, Score) {
        let persistent = self.is_persistent(p, connection);
        let direction = self.direction_of(p);
        let noted = StateView {
            persistent_ids: if persistent {
                self.persistent_ids.insert(p)
            } else {
                self.persistent_ids
            },
            ..self
        };
        if self.peers.contains_key(p) {
            let info = self.seen_again(self.peers[p], persistent, direction, address, moniker);
            (noted.changed(p, info).0, info.score)
        } else {
            noted.peer_added(p, self.first_seen(persistent, direction, address, moniker))
        }
    }

    /// The address that `p` is known by on `connection`: the one that it is
    /// connected from, or the first that it says it listens on.
    pub open spec fn address_on(
        self,
        connection: ConnectionId,
        listen: Seq<AddressView>,
        otherwise: AddressView,
    ) -> AddressView {
        match self.discovery.remote_of(connection) {
            Some(r) => r,
            None => if listen.len() > 0 {
                listen[0]
            } else {
                otherwise
            },
        }
    }

    /// The state with the score and the meshes of `p` as gossipsub has them.
    pub open spec fn refreshed(
        self,
        p: PeerId,
        scores: Map<PeerId, Score>,
        meshes: Seq<(Seq<char>, Seq<PeerId>)>,
    ) -> StateView<E, C> {
        if self.peers.contains_key(p) {
            let was = self.peers[p];
            let score = if scores.contains_key(p) {
                scores[p]
            } else {
                was.score
            };
            let topics = topics_of(meshes, p);
            StateView {
                metrics: self.metrics.update_peer_metrics(p, was, score, Some(topics)),
                peers: self.peers.insert(p, PeerView { score, topics, ..was }),
                ..self
            }
        } else {
            self
        }
    }

    /// The state with the scores and the meshes of the peers in `ids`.
    pub open spec fn all_refreshed(
        self,
        ids: Seq<PeerId>,
        scores: Map<PeerId, Score>,
        meshes: Seq<(Seq<char>, Seq<PeerId>)>,
    ) -> StateView<E, C>
        decreases ids.len(),
    {
        if ids.len() == 0 {
            self
        } else {
            self.all_refreshed(ids.drop_last(), scores, meshes).refreshed(ids.last(), scores, meshes)
        }
    }

    /// The state after a persistent peer was made an explicit peer.
    pub open spec fn explicit_added(self, p: PeerId) -> (StateView<E, C>, Seq<ActionView>) {
        if self.enable_explicit_peering && self.gossipsub && self.peers.contains_key(p)
            && self.peers[p].peer_type.persistent && !self.peers[p].is_explicit {
            (
                StateView {
                    peers: self.peers.insert(p, PeerView { is_explicit: true, ..self.peers[p] }),
                    metrics: self.metrics.record_explicit_peer(p, self.peers[p].moniker),
                    ..self
                },
                seq![ActionView::AddExplicitPeer(p)],
            )
        } else {
            (self, Seq::empty())
        }
    }

    /// The state after an explicit peer was made one no longer.
    pub open spec fn explicit_removed(self, p: PeerId) -> (StateView<E, C>, Seq<ActionView>) {
        if self.enable_explicit_peering && self.gossipsub && self.peers.contains_key(p)
            && self.peers[p].is_explicit {
            (
                StateView {
                    peers: self.peers.insert(p, PeerView { is_explicit: false, ..self.peers[p] }),
                    metrics: self.metrics.mark_explicit_peer_stale(p, self.peers[p].moniker),
                    ..self
                },
                seq![ActionView::RemoveExplicitPeer(p)],
            )
        } else {
            (self, Seq::empty())
        }
    }

    /// The work of giving `p` the score `score`.
    pub open spec fn score_work(self, p: PeerId, score: Score) -> Seq<ActionView> {
        if self.gossipsub {
            seq![ActionView::SetScore(p, score)]
        } else {
            Seq::empty()
        }
    }

    /// The state with another persistent role of `p`, which is then shown under
    /// the labels of its new type.
    pub open spec fn persistent_set(self, p: PeerId, persistent: bool) -> (
        StateView<E, C>,
        Seq<ActionView>,
    ) {
        if self.peers.contains_key(p) {
            let peer_type = PeerType { persistent, ..self.peers[p].peer_type };
            let score = self.scores.score_of(peer_type);
            let info = PeerView { peer_type, score, ..self.peers[p] };
            (self.changed(p, info).0, self.score_work(p, score))
        } else {
            (self, Seq::empty())
        }
    }

    /// Whether `p` is an inbound peer that may be evicted: neither a validator
    /// nor persistent.
    pub open spec fn is_candidate(self, p: PeerId) -> bool {
        self.discovery.inbound.contains(p) && self.peers.contains_key(p)
            && !self.peers[p].peer_type.has_priority()
    }

    /// Whether `p` is the one to evict: the lowest score, and the lowest
    /// identifier among equal scores.
    pub open spec fn is_lowest(self, p: PeerId) -> bool {
        &&& self.is_candidate(p)
        &&& forall|q: PeerId| #[trigger]
            self.is_candidate(q) ==> self.peers[p].score.order < self.peers[q].score.order || (
            self.peers[p].score.order == self.peers[q].score.order && p.rank() <= q.rank())
    }

    /// The inbound peer to evict.
    pub open spec fn lowest_inbound(self) -> Option<PeerId> {
        if exists|p: PeerId| self.is_lowest(p) {
            Some(choose|p: PeerId| self.is_lowest(p))
        } else {
            None
        }
    }

    /// The state after `p` was made an inbound peer, where it is connected
    /// otherwise and there is room.
    pub open spec fn promoted(self, p: PeerId) -> (StateView<E, C>, Seq<ActionView>) {
        if self.discovery.is_ephemeral(p) && self.discovery.inbound.len()
            < self.discovery.config.num_inbound_peers {
            (
                StateView {
                    discovery: DiscoveryView {
                        inbound: self.discovery.inbound.insert(p),
                        ..self.discovery
                    },
                    peers: if self.peers.contains_key(p) {
                        self.peers.insert(
                            p,
                            PeerView {
                                connection_direction: Some(ConnectionDirection::Inbound),
                                ..self.peers[p]
                            },
                        )
                    } else {
                        self.peers
                    },
                    ..self
                },
                seq![ActionView::Discovery(DiscoveryActionView::UpdateMetrics)],
            )
        } else {
            (self, Seq::empty())
        }
    }

    /// The state after the inbound peer `p` was evicted.
    pub open spec fn evicted(self, p: PeerId) -> (StateView<E, C>, Seq<ActionView>) {
        (
            StateView {
                discovery: DiscoveryView {
                    inbound: self.discovery.inbound.remove(p),
                    ..self.discovery
                },
                ..self
            },
            discovery_work(
                self.discovery.connections_of(p).map_values(
                    |c: ConnectionId| DiscoveryActionView::QueueClose(p, c, None),
                ).push(DiscoveryActionView::UpdateMetrics),
            ),
        )
    }

    /// The state after `p` was given an inbound slot, which another peer may
    /// have to leave.
    pub open spec fn prioritized(self, p: PeerId) -> (
        StateView<E, C>,
        Option<PeerId>,
        Seq<ActionView>,
    ) {
        if !self.peers.contains_key(p) || !self.peers[p].peer_type.has_priority()
            || !self.discovery.is_ephemeral(p) {
            (self, None, Seq::empty())
        } else if self.discovery.inbound.len() < self.discovery.config.num_inbound_peers {
            let (next, actions) = self.promoted(p);
            (next, None, actions)
        } else {
            match self.lowest_inbound() {
                None => (self, None, Seq::empty()),
                Some(e) => {
                    let (freed, closing) = self.evicted(e);
                    let (next, actions) = freed.promoted(p);
                    (next, Some(e), closing + actions)
                },
            }
        }
    }

    /// The state after a persistent peer was added; false where it is one.
    pub open spec fn persistent_added(self, addr: AddressView) -> (
        StateView<E, C>,
        bool,
        Seq<ActionView>,
    ) {
        if self.persistent_addrs.contains(addr) {
            (self, false, Seq::empty())
        } else {
            let (named, actions) = match peer_in(addr) {
                None => (self, Seq::empty()),
                Some(p) => {
                    let known = StateView { persistent_ids: self.persistent_ids.insert(p), ..self };
                    let (s1, a1) = known.persistent_set(p, true);
                    let (s2, _, a2) = s1.prioritized(p);
                    let (s3, a3) = s2.explicit_added(p);
                    (s3, a1 + a2 + a3)
                },
            };
            let bootstrap = named.discovery.bootstrap;
            (
                StateView {
                    persistent_addrs: named.persistent_addrs.push(addr),
                    discovery: DiscoveryView {
                        bootstrap: if first_with_address(bootstrap, addr, 0) is Some {
                            bootstrap
                        } else {
                            bootstrap.push(node_of(addr))
                        },
                        ..named.discovery
                    },
                    ..named
                },
                true,
                if transport_in(addr) is Some {
                    actions.push(ActionView::Dial(addr))
                } else {
                    actions
                },
            )
        }
    }

    /// The peer behind a persistent address: the one that it names, or the one
    /// that was found there.
    pub open spec fn peer_behind(self, addr: AddressView) -> Option<PeerId> {
        match peer_in(addr) {
            Some(p) => Some(p),
            None => match first_with_address(self.discovery.bootstrap, addr, 0) {
                Some(i) => self.discovery.bootstrap[i].peer_id,
                None => None,
            },
        }
    }

    /// The state after the persistent address at `i` was removed.
    pub open spec fn persistent_removed(self, i: int) -> (StateView<E, C>, Seq<ActionView>) {
        let addr = self.persistent_addrs[i];
        let shorter = StateView { persistent_addrs: self.persistent_addrs.remove(i), ..self };
        let behind = self.peer_behind(addr);
        let (left, actions) = match behind {
            None => (shorter, Seq::empty()),
            Some(p) => {
                let known = StateView { persistent_ids: self.persistent_ids.remove(p), ..shorter };
                let (s1, a1) = known.explicit_removed(p);
                let (s2, a2) = s1.persistent_set(p, false);
                let close = if self.local_node.persistent_peers_only
                    || !self.discovery.inbound.contains(p) {
                    seq![ActionView::DisconnectIfConnected(p)]
                } else {
                    Seq::empty()
                };
                (s2, a1 + a2 + close)
            },
        };
        let forget = match behind {
            Some(p) => seq![
                DiscoveryActionView::RemoveDialDoneAddress(without_peer(addr)),
                DiscoveryActionView::RemoveDialDonePeer(p),
            ],
            None => seq![DiscoveryActionView::RemoveDialDoneAddress(without_peer(addr))],
        };
        (
            StateView {
                discovery: match first_with_address(left.discovery.bootstrap, addr, 0) {
                    Some(k) => DiscoveryView {
                        bootstrap: left.discovery.bootstrap.remove(k),
                        ..left.discovery
                    },
                    None => left.discovery,
                },
                ..left
            },
            actions + discovery_work(forget),
        )
    }

    /// The state after the last connection of `p` was closed.
    pub open spec fn peer_left(self, p: PeerId) -> (StateView<E, C>, Seq<ActionView>) {
        let (quiet, actions) = self.explicit_removed(p);
        let unlearned = if names_peer(quiet.persistent_addrs, p) {
            quiet
        } else {
            StateView { persistent_ids: quiet.persistent_ids.remove(p), ..quiet }
        };
        (
            StateView {
                metrics: if unlearned.peers.contains_key(p) {
                    unlearned.metrics.free_slot(p, unlearned.peers[p])
                } else {
                    unlearned.metrics
                },
                peers: unlearned.peers.remove(p),
                pending: unlearned.pending.remove(p),
                ..unlearned
            },
            actions,
        )
    }
}

/// There is at most one inbound peer to evict.
pub proof fn lemma_lowest_unique<E, C>(s: StateView<E, C>, p: PeerId)
    requires
        s.is_lowest(p),
    ensures
        s.lowest_inbound() == Some(p),
{
    let q = choose|q: PeerId| s.is_lowest(q);
    assert(s.is_lowest(q));
    assert(p.rank() == q.rank());
    PeerId::rank_injective(p, q);
}

/// The address of a peer that has none: no host and no port.
pub open spec fn unspecified_address() -> AddressView {
    match multiaddr_components("/ip4/0.0.0.0/tcp/0"@) {
        Some(a) => a,
        None => Seq::empty(),
    }
}

/// The address of a peer that has none.
fn no_address() -> (r: Multiaddr)
    ensures
        r@ == unspecified_address(),
{
    match Multiaddr::parse("/ip4/0.0.0.0/tcp/0") {
        Some(a) => a,
        None => {
            let none = Multiaddr { components: Vec::new() };
            assert(none@ =~= Seq::<ComponentView>::empty());
            none
        },
    }
}

/// Whether one of the addresses names `p`.
fn names_peer_in(addrs: &Vec<Multiaddr>, p: &PeerId) -> (r: bool)
    ensures
        r == names_peer(addresses(addrs@), *p),
{
    let ghost all = addresses(addrs@);
    let mut i: usize = 0;
    while i < addrs.len()
        invariant
            i <= addrs@.len(),
            all == addresses(addrs@),
            forall|j: int| 0 <= j < i ==> peer_in(#[trigger] all[j]) != Some(*p),
        decreases addrs@.len() - i,
    {
        assert(all[i as int] == addrs@[i as int]@);
        if let Some(q) = addrs[i].peer_id() {
            if q.same(p) {
                return true;
            }
        }
        i = i + 1;
    }
    false
}

/// Whether `p` is one of `members`.
fn holds_peer(members: &Vec<PeerId>, p: &PeerId) -> (r: bool)
    ensures
        r == members@.contains(*p),
{
    let mut i: usize = 0;
    while i < members.len()
        invariant
            i <= members@.len(),
            forall|j: int| 0 <= j < i ==> members@[j] != *p,
        decreases members@.len() - i,
    {
        if members[i].same(p) {
            return true;
        }
        i = i + 1;
    }
    false
}

/// A topic, and the peers in its mesh.
pub struct Mesh {
    pub topic: String,
    pub members: Vec<PeerId>,
}

/// Meshes, as values.
pub open spec fn mesh_views(meshes: Seq<Mesh>) -> Seq<(Seq<char>, Seq<PeerId>)> {
    meshes.map_values(|m: Mesh| (m.topic@, m.members@))
}

/// The topics in whose mesh `p` is, each once.
fn mesh_topics(meshes: &Vec<Mesh>, p: &PeerId) -> (r: Vec<String>)
    ensures
        texts(r@) == topics_of(mesh_views(meshes@), *p),
{
    let ghost all = mesh_views(meshes@);
    let mut out: Vec<String> = Vec::new();
    let mut i: usize = 0;
    assert(texts(out@) =~= Seq::<Seq<char>>::empty());
    assert(all.subrange(0, 0) =~= Seq::<(Seq<char>, Seq<PeerId>)>::empty());
    while i < meshes.len()
        invariant
            i <= meshes@.len(),
            all == mesh_views(meshes@),
            texts(out@) == topics_of(all.subrange(0, i as int), *p),
        decreases meshes@.len() - i,
    {
        proof {
            assert(all.subrange(0, i + 1).drop_last() =~= all.subrange(0, i as int));
            assert(all.subrange(0, i + 1).last() == (
                meshes@[i as int].topic@,
                meshes@[i as int].members@,
            ));
        }
        if holds_peer(&meshes[i].members, p) && !contains_text(&out, &meshes[i].topic) {
            let ghost before = out@;
            out.push(meshes[i].topic.clone());
            assert(texts(out@) =~= texts(before).push(meshes@[i as int].topic@));
        }
        i = i + 1;
    }
    assert(all.subrange(0, i as int) =~= all);
    out
}

/// The validators of a list, each once.
fn distinct_validators(validators: Vec<ValidatorInfo>) -> (r: Vec<ValidatorInfo>)
    ensures
        validator_views(r@) == distinct(validator_views(validators@)),
{
    let ghost all = validator_views(validators@);
    let mut out: Vec<ValidatorInfo> = Vec::new();
    let mut i: usize = 0;
    assert(validator_views(out@) =~= Seq::<ValidatorView>::empty());
    assert(all.subrange(0, 0) =~= Seq::<ValidatorView>::empty());
    while i < validators.len()
        invariant
            i <= validators@.len(),
            all == validator_views(validators@),
            validator_views(out@) == distinct(all.subrange(0, i as int)),
        decreases validators@.len() - i,
    {
        let ghost sofar = validator_views(out@);
        let ghost next = validators@[i as int]@;
        proof {
            assert(all.subrange(0, i + 1).drop_last() =~= all.subrange(0, i as int));
            assert(all.subrange(0, i + 1).last() == next);
        }
        let mut known = false;
        let mut k: usize = 0;
        while k < out.len() && !known
            invariant
                k <= out@.len(),
                i < validators@.len(),
                next == validators@[i as int]@,
                sofar == validator_views(out@),
                known ==> sofar.contains(next),
                !known ==> forall|j: int| 0 <= j < k ==> sofar[j] != next,
            decreases out@.len() - k,
        {
            assert(sofar[k as int] == out@[k as int]@);
            if out[k].same(&validators[i]) {
                known = true;
            }
            k = k + 1;
        }
        if !known {
            let copy = validators[i].copy();
            let ghost before = out@;
            out.push(copy);
            assert(validator_views(out@) =~= validator_views(before).push(next));
        }
        i = i + 1;
    }
    assert(all.subrange(0, i as int) =~= all);
    out
}

/// The persistent peers that addresses name.
fn named_in(addrs: &Vec<Multiaddr>) -> (r: OrdMap<PeerId, ()>)
    ensures
        r.wf(),
        r@.dom() == named_peers(addresses(addrs@)),
{
    let ghost all = addresses(addrs@);
    let mut ids: OrdMap<PeerId, ()> = OrdMap::new();
    let mut i: usize = 0;
    assert(ids@.dom() =~= named_peers(all.subrange(0, 0)));
    while i < addrs.len()
        invariant
            ids.wf(),
            i <= addrs@.len(),
            all == addresses(addrs@),
            ids@.dom() == named_peers(all.subrange(0, i as int)),
        decreases addrs@.len() - i,
    {
        let ghost before = ids@.dom();
        let ghost now = all.subrange(0, i + 1);
        proof {
            assert(all[i as int] == addrs@[i as int]@);
            assert(now[i as int] == all[i as int]);
            assert forall|p: PeerId| names_peer(now, p) == (names_peer(all.subrange(0, i as int), p)
                || peer_in(all[i as int]) == Some(p)) by {
                let old_part = all.subrange(0, i as int);
                if names_peer(now, p) {
                    let k = choose|k: int| 0 <= k < now.len() && peer_in(#[trigger] now[k]) == Some(p);
                    if k < i {
                        assert(old_part[k] == now[k]);
                    }
                }
                if names_peer(old_part, p) {
                    let k = choose|k: int|
                        0 <= k < old_part.len() && peer_in(#[trigger] old_part[k]) == Some(p);
                    assert(now[k] == old_part[k]);
                }
            }
        }
        if let Some(p) = addrs[i].peer_id() {
            ids.insert(p, ());
            assert(ids@.dom() =~= named_peers(now));
        } else {
            assert(ids@.dom() =~= named_peers(now));
        }
        i = i + 1;
    }
    assert(all.subrange(0, i as int) =~= all);
    ids
}

impl<E, C> State<E, C> {
    /// The maps and the metrics are well formed.
    pub open spec fn wf(self) -> bool {
        &&& self.sync_channels.wf()
        &&& self.discovery.wf()
        &&& self.persistent_peer_ids.wf()
        &&& self.metrics.wf()
        &&& self.peer_info.wf()
        &&& self.pending_verified_proofs.wf()
    }

    /// A state without peers. The persistent peers that addresses name are
    /// known by their identifiers.
    pub fn new(
        discovery: Discovery<E>,
        persistent_peer_addrs: Vec<Multiaddr>,
        local_node: LocalNodeInfo,
        metrics: Metrics,
        enable_explicit_peering: bool,
        gossipsub: bool,
        scores: Scores,
    ) -> (r: Self)
        requires
            discovery.wf(),
            metrics.wf(),
        ensures
            r.wf(),
            r@ == (StateView::<E, C> {
                sync_channels: Map::empty(),
                discovery: discovery@,
                persistent_ids: named_peers(addresses(persistent_peer_addrs@)),
                persistent_addrs: addresses(persistent_peer_addrs@),
                validators: Seq::empty(),
                metrics: metrics@,
                local_node: local_node@,
                enable_explicit_peering,
                gossipsub,
                scores,
                peers: Map::empty(),
                pending: Map::empty(),
            }),
    {
        let persistent_peer_ids = named_in(&persistent_peer_addrs);
        let r = State {
            sync_channels: OrdMap::new(),
            discovery,
            persistent_peer_ids,
            persistent_peer_addrs,
            validator_set: Vec::new(),
            metrics,
            local_node,
            enable_explicit_peering,
            gossipsub,
            scores,
            peer_info: OrdMap::new(),
            pending_verified_proofs: OrdMap::new(),
        };
        proof {
            assert(r@.validators =~= Seq::<ValidatorView>::empty());
            assert(r@.peers =~= Map::<PeerId, PeerView>::empty());
            assert(r@.pending =~= Map::<PeerId, Seq<u8>>::empty());
        }
        r
    }

    /// Replace what is known of a peer. Its score, if its type has changed.
    fn put_changed(&mut self, peer_id: &PeerId, was: &PeerInfo, info: PeerInfo) -> (r: Option<Score>)
        requires
            old(self).wf(),
            old(self)@.peers.contains_key(*peer_id),
            old(self)@.peers[*peer_id] == was@,
        ensures
            final(self).wf(),
            (final(self)@, r) == old(self)@.changed(*peer_id, info@),
    {
        let ghost start = self@;
        let score = info.score;
        let type_changed = info.peer_type != was.peer_type;
        self.metrics.update_peer_labels(peer_id, was, &info);
        self.peer_info.insert(*peer_id, info);
        assert(self@.peers =~= start.peers.insert(*peer_id, info@));
        if type_changed {
            Some(score)
        } else {
            None
        }
    }

    /// What is known of a peer that has proved to hold the public key `key`.
    fn info_with_key(&self, was: &PeerInfo, key: Vec<u8>) -> (r: PeerInfo)
        ensures
            r@ == self@.with_key(was@, key@),
    {
        let address = find_address_of_key(&self.validator_set, key.as_slice());
        let peer_type = was.peer_type.with_validator_status(address.is_some());
        let mut info = was.copy();
        info.consensus_public_key = Some(key);
        info.consensus_address = address;
        info.peer_type = peer_type;
        info.score = self.scores.get_peer_score(peer_type);
        info
    }

    /// Take note that a peer has proved to hold a public key. A peer that is
    /// not identified yet is classified once it is. The new score of the peer,
    /// if its type has changed.
    pub fn record_verified_proof(&mut self, peer_id: &PeerId, public_key: Vec<u8>) -> (r: Option<Score>)
        requires
            old(self).wf(),
        ensures
            final(self).wf(),
            (final(self)@, r) == old(self)@.proved(*peer_id, public_key@),
    {
        let ghost start = self@;
        match self.peer_info.get(peer_id) {
            Some(found) => {
                let was = found.copy();
                let info = self.info_with_key(&was, public_key);
                self.put_changed(peer_id, &was, info)
            },
            None => {
                self.pending_verified_proofs.insert(*peer_id, public_key);
                assert(self@.pending =~= start.pending.insert(*peer_id, public_key@));
                None
            },
        }
    }

    /// Classify a peer anew by the key that it has proved to hold.
    fn reclassify_peer(&mut self, peer_id: &PeerId) -> (r: Option<Score>)
        requires
            old(self).wf(),
        ensures
            final(self).wf(),
            (final(self)@, r) == old(self)@.reclassified(*peer_id),
    {
        match self.peer_info.get(peer_id) {
            Some(found) => {
                match copy_bytes(&found.consensus_public_key) {
                    Some(key) => {
                        let was = found.copy();
                        let info = self.info_with_key(&was, key);
                        self.put_changed(peer_id, &was, info)
                    },
                    None => None,
                }
            },
            None => None,
        }
    }

    /// The identified peers, in ascending order.
    fn peer_ids(&self) -> (r: Vec<PeerId>)
        requires
            self.wf(),
        ensures
            r@ == self.peer_info.keys(),
    {
        let mut out: Vec<PeerId> = Vec::new();
        let mut i: usize = 0;
        while i < self.peer_info.entries.len()
            invariant
                i <= self.peer_info.entries@.len(),
                out@ =~= self.peer_info.keys().subrange(0, i as int),
            decreases self.peer_info.entries@.len() - i,
        {
            out.push(self.peer_info.entries[i].0);
            i = i + 1;
        }
        assert(out@ =~= self.peer_info.keys());
        out
    }

    /// Classify this node anew, and the peers that have proved to hold a key,
    /// by a new validator set. The peers whose type has changed, with their new
    /// scores.
    pub fn process_validator_set_update(&mut self, new_validators: Vec<ValidatorInfo>) -> (r: Vec<
        (PeerId, Score),
    >)
        requires
            old(self).wf(),
        ensures
            final(self).wf(),
            (final(self)@, r@) == old(self)@.with_validators(
                distinct(validator_views(new_validators@)),
            ).all_reclassified(old(self).peer_info.keys()),
    {
        let ghost start = self@;
        let ghost want = distinct(validator_views(new_validators@));
        self.validator_set = distinct_validators(new_validators);
        self.reclassify_local_node();
        let ghost base = self@;
        assert(base == start.with_validators(want));
        let ids = self.peer_ids();
        let mut changed: Vec<(PeerId, Score)> = Vec::new();
        let mut i: usize = 0;
        assert(ids@.subrange(0, 0) =~= Seq::<PeerId>::empty());
        while i < ids.len()
            invariant
                self.wf(),
                i <= ids@.len(),
                (self@, changed@) == base.all_reclassified(ids@.subrange(0, i as int)),
            decreases ids@.len() - i,
        {
            proof {
                assert(ids@.subrange(0, i + 1).drop_last() =~= ids@.subrange(0, i as int));
                assert(ids@.subrange(0, i + 1).last() == ids@[i as int]);
            }
            if let Some(score) = self.reclassify_peer(&ids[i]) {
                changed.push((ids[i], score));
            }
            i = i + 1;
        }
        assert(ids@.subrange(0, i as int) =~= ids@);
        changed
    }

    /// Classify this node anew by the validator set.
    fn reclassify_local_node(&mut self)
        requires
            old(self).wf(),
        ensures
            final(self).wf(),
            final(self)@ == old(self)@.with_validators(old(self)@.validators),
            final(self).peer_info == old(self).peer_info,
    {
        let was_validator = self.local_node.is_validator;
        let is_validator = match &self.local_node.consensus_address {
            Some(address) => has_validator_at(&self.validator_set, address),
            None => false,
        };
        self.local_node.is_validator = is_validator;
        if was_validator != is_validator {
            self.metrics.set_local_node_info(&self.local_node);
        }
    }

    /// Whether a peer is persistent: by its identifier, or by the address that
    /// it is connected from. What a peer says of its addresses does not count.
    pub fn is_persistent_peer(&self, peer_id: &PeerId, connection_id: ConnectionId) -> (r: bool)
        requires
            self.wf(),
        ensures
            r == self@.is_persistent(*peer_id, connection_id),
    {
        self.persistent_peer_ids.contains_key(peer_id) || self.is_persistent_peer_by_address(
            connection_id,
        )
    }

    /// Whether the address that a connection comes from is a persistent one.
    fn is_persistent_peer_by_address(&self, connection_id: ConnectionId) -> (r: bool)
        requires
            self.wf(),
        ensures
            r == match self@.discovery.remote_of(connection_id) {
                Some(a) => exists|i: int|
                    0 <= i < self@.persistent_addrs.len() && without_peer(
                        #[trigger] self@.persistent_addrs[i],
                    ) == without_peer(a),
                None => false,
            },
    {
        let remote = match self.discovery.connections.get(&connection_id) {
            Some(info) => info.remote_addr.strip_peer_id(),
            None => {
                return false;
            },
        };
        let ghost from = self@.discovery.remote_of(connection_id);
        let mut i: usize = 0;
        while i < self.persistent_peer_addrs.len()
            invariant
                i <= self.persistent_peer_addrs@.len(),
                from == self@.discovery.remote_of(connection_id),
                from matches Some(a) && remote@ == without_peer(a),
                forall|j: int|
                    0 <= j < i ==> without_peer(#[trigger] self@.persistent_addrs[j]) != remote@,
            decreases self.persistent_peer_addrs@.len() - i,
        {
            let known = self.persistent_peer_addrs[i].strip_peer_id();
            assert(self@.persistent_addrs[i as int] == self.persistent_peer_addrs@[i as int]@);
            if remote.same(&known) {
                return true;
            }
            i = i + 1;
        }
        false
    }

    /// Forget that a peer is persistent, unless an address names it.
    pub fn remove_learned_persistent_peer_id(&mut self, peer_id: &PeerId)
        requires
            old(self).wf(),
        ensures
            final(self).wf(),
            final(self)@ == if names_peer(old(self)@.persistent_addrs, *peer_id) {
                old(self)@
            } else {
                StateView {
                    persistent_ids: old(self)@.persistent_ids.remove(*peer_id),
                    ..old(self)@
                }
            },
    {
        let ghost start = self@;
        if !names_peer_in(&self.persistent_peer_addrs, peer_id) {
            self.persistent_peer_ids.remove(peer_id);
            assert(self@.persistent_ids =~= start.persistent_ids.remove(*peer_id));
        }
    }

    /// Take over the scores and the meshes of the identified peers. A peer
    /// without a score keeps the one that it has.
    pub fn update_peer_info(&mut self, scores: &OrdMap<PeerId, Score>, meshes: &Vec<Mesh>)
        requires
            old(self).wf(),
            scores.wf(),
        ensures
            final(self).wf(),
            final(self)@ == old(self)@.all_refreshed(
                old(self).peer_info.keys(),
                scores@,
                mesh_views(meshes@),
            ),
    {
        let ghost start = self@;
        let ids = self.peer_ids();
        let mut i: usize = 0;
        assert(ids@.subrange(0, 0) =~= Seq::<PeerId>::empty());
        while i < ids.len()
            invariant
                self.wf(),
                scores.wf(),
                i <= ids@.len(),
                self@ == start.all_refreshed(
                    ids@.subrange(0, i as int),
                    scores@,
                    mesh_views(meshes@),
                ),
            decreases ids@.len() - i,
        {
            proof {
                assert(ids@.subrange(0, i + 1).drop_last() =~= ids@.subrange(0, i as int));
                assert(ids@.subrange(0, i + 1).last() == ids@[i as int]);
            }
            self.refresh_peer(&ids[i], scores, meshes);
            i = i + 1;
        }
        assert(ids@.subrange(0, i as int) =~= ids@);
    }

    /// Take over the score and the meshes of a peer.
    fn refresh_peer(&mut self, peer_id: &PeerId, scores: &OrdMap<PeerId, Score>, meshes: &Vec<Mesh>)
        requires
            old(self).wf(),
            scores.wf(),
        ensures
            final(self).wf(),
            final(self)@ == old(self)@.refreshed(*peer_id, scores@, mesh_views(meshes@)),
    {
        let ghost start = self@;
        if let Some(found) = self.peer_info.get(peer_id) {
            let mut info = found.copy();
            let score = match scores.get(peer_id) {
                Some(s) => *s,
                None => info.score,
            };
            let topics = mesh_topics(meshes, peer_id);
            let _ = self.metrics.update_peer_metrics(peer_id, &info, score, Some(&topics));
            info.score = score;
            info.topics = topics;
            self.peer_info.insert(*peer_id, info);
            assert(self@.peers =~= start.peers.insert(*peer_id, info@));
        }
    }

    /// Take in what an identified peer says of itself, and classify it. The
    /// score to give to the peer.
    pub fn update_peer(
        &mut self,
        peer_id: PeerId,
        connection_id: ConnectionId,
        listen_addrs: &Vec<Multiaddr>,
        moniker: String,
    ) -> (r: Score)
        requires
            old(self).wf(),
        ensures
            final(self).wf(),
            (final(self)@, r) == old(self)@.identified(
                peer_id,
                connection_id,
                old(self)@.address_on(
                    connection_id,
                    addresses(listen_addrs@),
                    unspecified_address(),
                ),
                moniker@,
            ),
    {
        let ghost start = self@;
        let is_persistent = self.is_persistent_peer(&peer_id, connection_id);
        if is_persistent {
            self.persistent_peer_ids.insert(peer_id, ());
            assert(self@.persistent_ids =~= start.persistent_ids.insert(peer_id));
        }
        let address = match self.discovery.connections.get(&connection_id) {
            Some(info) => info.remote_addr.copy(),
            None => if listen_addrs.len() > 0 {
                assert(addresses(listen_addrs@)[0] == listen_addrs@[0]@);
                listen_addrs[0].copy()
            } else {
                no_address()
            },
        };
        let direction = if self.discovery.is_outbound_peer(&peer_id) {
            Some(ConnectionDirection::Outbound)
        } else if self.discovery.is_inbound_peer(&peer_id) {
            Some(ConnectionDirection::Inbound)
        } else {
            None
        };
        let ghost noted = self@;
        match self.peer_info.get(&peer_id) {
            Some(existing) => {
                let was = existing.copy();
                let info = self.info_seen_again(&was, is_persistent, direction, address, moniker);
                let score = info.score;
                let _ = self.put_changed(&peer_id, &was, info);
                score
            },
            None => {
                let peer_type = PeerType::new(is_persistent, false);
                let info = PeerInfo {
                    moniker,
                    address,
                    consensus_address: None,
                    consensus_public_key: None,
                    peer_type,
                    connection_direction: direction,
                    score: self.scores.get_peer_score(peer_type),
                    topics: Vec::new(),
                    is_explicit: false,
                };
                assert(info@.topics =~= Seq::<Seq<char>>::empty());
                assert(info@ == start.first_seen(
                    is_persistent,
                    direction,
                    address@,
                    moniker@,
                ));
                self.add_peer(peer_id, info)
            },
        }
    }

    /// What is known of a peer once it was identified again.
    fn info_seen_again(
        &self,
        was: &PeerInfo,
        is_persistent: bool,
        direction: Option<ConnectionDirection>,
        address: Multiaddr,
        moniker: String,
    ) -> (r: PeerInfo)
        ensures
            r@ == self@.seen_again(was@, is_persistent, direction, address@, moniker@),
    {
        let mut info = was.copy();
        info.moniker = moniker;
        let outbound = match direction {
            Some(ConnectionDirection::Outbound) => true,
            _ => false,
        };
        let was_outbound = match was.connection_direction {
            Some(ConnectionDirection::Outbound) => true,
            _ => false,
        };
        if outbound || !was_outbound {
            info.address = address;
            info.connection_direction = direction;
        }
        info.peer_type = was.peer_type.with_persistent(is_persistent);
        info.score = self.scores.get_peer_score(info.peer_type);
        info
    }

    /// Add a new peer, to which a key that it has proved to hold already
    /// applies. The score of the peer.
    fn add_peer(&mut self, peer_id: PeerId, info: PeerInfo) -> (r: Score)
        requires
            old(self).wf(),
        ensures
            final(self).wf(),
            (final(self)@, r) == old(self)@.peer_added(peer_id, info@),
    {
        let ghost start = self@;
        let score = info.score;
        self.metrics.record_new_peer(&peer_id, &info);
        self.peer_info.insert(peer_id, info);
        let pending = self.pending_verified_proofs.remove(&peer_id);
        proof {
            assert(self@.peers =~= start.peers.insert(peer_id, info@));
            assert(self@.pending =~= start.pending.remove(peer_id));
        }
        match pending {
            Some(public_key) => {
                match self.record_verified_proof(&peer_id, public_key) {
                    Some(new_score) => new_score,
                    None => score,
                }
            },
            None => score,
        }
    }
}

/// Whether some validator has the address `address`.
fn has_validator_at(validators: &Vec<ValidatorInfo>, address: &String) -> (r: bool)
    ensures
        r == has_address(validator_views(validators@), address@),
{
    let ghost all = validator_views(validators@);
    let mut i: usize = 0;
    while i < validators.len()
        invariant
            i <= validators@.len(),
            all == validator_views(validators@),
            forall|j: int| 0 <= j < i ==> (#[trigger] all[j]).address != address@,
        decreases validators@.len() - i,
    {
        assert(all[i as int] == validators@[i as int]@);
        if validators[i].address == *address {
            return true;
        }
        i = i + 1;
    }
    false
}

} // verus!
