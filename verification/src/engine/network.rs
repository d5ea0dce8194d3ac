//! The network actor: what it remembers of the peer-to-peer layer, and what it
//! does for each message.

use vstd::prelude::*;
use vstd::string::*;

use crate::bytes::same_bytes;
use crate::engine::consensus::LivenessKind;
use crate::engine::event::{NetworkEvent, OutboundFailureReason, PeerId, RequestId, Status};
use crate::ident::{Ident, OrdMap, VecSet};
use crate::network::channel::Channel;
use crate::network::peers::PersistentPeerError;

verus! {

/// How a message on the consensus channels is decoded.
#[derive(Clone, Copy, Debug, PartialEq, Eq, Structural)]
pub enum Decoder {
    /// As a vote or a proposal.
    ConsensusMsg,
    /// As a part of a proposed value.
    ProposalPart,
    /// As a status update.
    Status,
    /// Not at all: such messages are not expected there.
    Unexpected,
}

/// How a consensus message on `channel` is decoded.
pub fn decoder_for(channel: Channel) -> (r: Decoder)
    ensures
        r == (match channel {
            Channel::Consensus => Decoder::ConsensusMsg,
            Channel::ProposalParts => Decoder::ProposalPart,
            Channel::Sync => Decoder::Status,
            Channel::Liveness => Decoder::Unexpected,
        }),
{
    match channel {
        Channel::Consensus => Decoder::ConsensusMsg,
        Channel::ProposalParts => Decoder::ProposalPart,
        Channel::Sync => Decoder::Status,
        Channel::Liveness => Decoder::Unexpected,
    }
}

/// Whether a liveness message on `channel` is expected, and so decoded.
pub fn decodes_liveness(channel: Channel) -> (r: bool)
    ensures
        r == (channel == Channel::Liveness),
{
    channel == Channel::Liveness
}

/// A message on the consensus channels, decoded; nothing where that failed.
pub enum ConsensusPayload<P> {
    /// A vote.
    Vote(P),
    /// A proposal.
    Proposal(P),
    /// A part of a proposed value.
    ProposalPart(P),
    /// The status that a peer claims, with the peer that it names.
    Status(PeerId, Status),
    /// It could not be decoded, or was not expected on its channel.
    Unreadable,
}

/// An event of the peer-to-peer layer, its message decoded.
pub enum Event<P> {
    /// The node listens on this address.
    Listening(P),
    /// A peer connected.
    PeerConnected(PeerId),
    /// A peer disconnected.
    PeerDisconnected(PeerId),
    /// A peer subscribed to a channel.
    PeerSubscribed(PeerId, Channel),
    /// A peer unsubscribed from a channel.
    PeerUnsubscribed(PeerId, Channel),
    /// A message on the consensus channels.
    ConsensusMessage(PeerId, ConsensusPayload<P>),
    /// A liveness message; nothing where it could not be decoded.
    LivenessMessage(PeerId, Option<(LivenessKind, P)>),
    /// A sync request, with the number that the transport gave it; nothing
    /// where it could not be decoded.
    SyncRequest(RequestId, u64, PeerId, Option<P>),
    /// A sync response; nothing where it could not be decoded.
    SyncResponse(RequestId, PeerId, Option<P>),
    /// A sync request could not be delivered or completed.
    SyncRequestFailed(RequestId, PeerId, OutboundFailureReason),
    /// A validator proof, with the bytes of the peer that it names; nothing
    /// where it could not be decoded.
    ValidatorProofReceived(PeerId, Option<(Vec<u8>, P)>),
}

/// A change of the persistent peers.
#[derive(Clone, Debug, PartialEq, Eq)]
pub enum PersistentPeersOp<A> {
    /// Add a persistent peer.
    Add(A),
    /// Remove a persistent peer.
    Remove(A),
}

/// The messages of the actor. What is to be sent comes encoded, or as nothing
/// where that failed.
pub enum Msg<P> {
    /// Subscribe an actor to the events.
    Subscribe,
    /// Publish a consensus message.
    PublishConsensusMsg(Option<P>),
    /// Publish a liveness message.
    PublishLivenessMsg(Option<P>),
    /// Publish a part of a proposed value.
    PublishProposalPart(Option<P>),
    /// Broadcast the status of this node to its peers.
    BroadcastStatus(Status),
    /// Send a request to a peer.
    OutgoingRequest(PeerId, Option<P>),
    /// Cancel a request that was sent. The transport cannot; its own timeout
    /// cleans up.
    CancelRequest(RequestId),
    /// Respond to a request.
    OutgoingResponse(RequestId, Option<P>),
    /// Drop a request that will not be answered.
    CancelInboundRequest(RequestId),
    /// Asks for the state of the network.
    DumpState,
    /// Add or remove a persistent peer.
    UpdatePersistentPeers(PersistentPeersOp<P>),
    /// A new validator set.
    UpdateValidatorSet(P),
    /// The verdict on a validator proof, with the public key where it is valid.
    ValidatorProofVerified(PeerId, bool, Option<P>),
    /// An event of the peer-to-peer layer.
    NewEvent(Event<P>),
}

/// Work outside the actor.
pub enum NetworkAction<P> {
    /// Send an event to the new subscriber.
    SendToSubscriber(NetworkEvent<P>),
    /// Let the new subscriber have all events from now on.
    AttachSubscriber,
    /// Send an event to all subscribers.
    Output(NetworkEvent<P>),
    /// Publish on a channel.
    Publish(Channel, P),
    /// Broadcast a status on the sync channel, as that of this peer.
    BroadcastStatus(PeerId, Status),
    /// Send a request to a peer, and reply with its number.
    SyncRequest(PeerId, P),
    /// Respond to the request with this number.
    SyncReply(u64, P),
    /// Give the validator set to the peer-to-peer layer.
    UpdateValidatorSet(P),
    /// Give the verdict on a validator proof to the peer-to-peer layer.
    ValidatorProofVerified(PeerId, bool, Option<P>),
    /// Reply with the state of the network, or that there is none.
    ReplyDump(bool),
    /// Let the peer-to-peer layer change its persistent peers, and reply.
    UpdatePersistentPeers(PersistentPeersOp<P>),
    /// Reply that the persistent peers cannot be changed.
    ReplyPersistentPeersError(PersistentPeerError),
}

/// The state of the actor while it runs.
pub struct Running<P> {
    /// The identifier of this node.
    pub peer_id: PeerId,
    /// The addresses that the node listens on, in order.
    pub listen_addrs: Vec<P>,
    /// The connected peers.
    pub peers: OrdMap<PeerId, ()>,
    /// The channels that peers are subscribed to.
    pub subscriptions: VecSet<(PeerId, Channel)>,
    /// The pending requests of peers, with the numbers that the transport gave
    /// them.
    pub inbound_requests: OrdMap<RequestId, u64>,
}

/// The state of the actor.
pub enum State<P> {
    Stopped,
    Running(Running<P>),
}

/// The state of the running actor, as a value.
#[verifier::reject_recursive_types(P)]
pub struct RunningView<P> {
    pub peer_id: PeerId,
    pub listen_addrs: Seq<P>,
    pub peers: Set<PeerId>,
    pub subscriptions: Set<(PeerId, Channel)>,
    pub inbound_requests: Map<RequestId, u64>,
}

impl<P> View for Running<P> {
    type V = RunningView<P>;

    open spec fn view(&self) -> RunningView<P> {
        RunningView {
            peer_id: self.peer_id,
            listen_addrs: self.listen_addrs@,
            peers: self.peers@.dom(),
            subscriptions: self.subscriptions@,
            inbound_requests: self.inbound_requests@,
        }
    }
}

/// What a new subscriber is sent: the listening addresses, the connected peers
/// and the subscriptions.
pub open spec fn welcome<P>(s: Running<P>) -> Seq<NetworkAction<P>> {
    s.listen_addrs@.map_values(
        |a: P| NetworkAction::SendToSubscriber(NetworkEvent::Listening(a)),
    ) + s.peers.entries@.map_values(
        |e: (PeerId, ())| NetworkAction::SendToSubscriber(NetworkEvent::PeerConnected(e.0)),
    ) + s.subscriptions.items@.map_values(
        |e: (PeerId, Channel)|
            NetworkAction::SendToSubscriber(NetworkEvent::PeerSubscribed(e.0, e.1)),
    ) + seq![NetworkAction::AttachSubscriber]
}

/// What is published: nothing where it could not be encoded.
pub open spec fn published<P>(channel: Channel, data: Option<P>) -> Seq<NetworkAction<P>> {
    match data {
        Some(d) => seq![NetworkAction::Publish(channel, d)],
        None => Seq::empty(),
    }
}

impl<P> RunningView<P> {
    /// What subscribers are told of a message on the consensus channels. A
    /// status that names another peer than its sender is ignored.
    pub open spec fn consensus_message(from: PeerId, payload: ConsensusPayload<P>) -> Seq<
        NetworkAction<P>,
    > {
        match payload {
            ConsensusPayload::Vote(p) => seq![NetworkAction::Output(NetworkEvent::Vote(from, p))],
            ConsensusPayload::Proposal(p) => seq![
                NetworkAction::Output(NetworkEvent::Proposal(from, p)),
            ],
            ConsensusPayload::ProposalPart(p) => seq![
                NetworkAction::Output(NetworkEvent::ProposalPart(from, p)),
            ],
            ConsensusPayload::Status(peer, status) => if from == peer {
                seq![NetworkAction::Output(NetworkEvent::Status(peer, status))]
            } else {
                Seq::empty()
            },
            ConsensusPayload::Unreadable => Seq::empty(),
        }
    }

    /// The state after `event`, and what follows from it.
    pub open spec fn event(self, event: Event<P>) -> (RunningView<P>, Seq<NetworkAction<P>>) {
        match event {
            Event::Listening(addr) => (
                RunningView { listen_addrs: self.listen_addrs.push(addr), ..self },
                seq![NetworkAction::Output(NetworkEvent::Listening(addr))],
            ),
            Event::PeerConnected(peer) => (
                RunningView { peers: self.peers.insert(peer), ..self },
                seq![NetworkAction::Output(NetworkEvent::PeerConnected(peer))],
            ),
            Event::PeerDisconnected(peer) => (
                RunningView {
                    peers: self.peers.remove(peer),
                    subscriptions: self.subscriptions.filter(|s: (PeerId, Channel)| s.0 != peer),
                    ..self
                },
                seq![NetworkAction::Output(NetworkEvent::PeerDisconnected(peer))],
            ),
            Event::PeerSubscribed(peer, channel) => (
                RunningView { subscriptions: self.subscriptions.insert((peer, channel)), ..self },
                seq![NetworkAction::Output(NetworkEvent::PeerSubscribed(peer, channel))],
            ),
            Event::PeerUnsubscribed(peer, channel) => (
                RunningView { subscriptions: self.subscriptions.remove((peer, channel)), ..self },
                Seq::empty(),
            ),
            Event::ConsensusMessage(from, payload) => (self, Self::consensus_message(from, payload)),
            Event::LivenessMessage(from, message) => (
                self,
                match message {
                    Some((LivenessKind::PolkaCertificate, p)) => seq![
                        NetworkAction::Output(NetworkEvent::PolkaCertificate(from, p)),
                    ],
                    Some((LivenessKind::SkipRoundCertificate, p)) => seq![
                        NetworkAction::Output(NetworkEvent::RoundCertificate(from, p)),
                    ],
                    Some((LivenessKind::Vote, p)) => seq![
                        NetworkAction::Output(NetworkEvent::Vote(from, p)),
                    ],
                    None => Seq::empty(),
                },
            ),
            Event::SyncRequest(id, number, peer, request) => match request {
                Some(p) => (
                    RunningView { inbound_requests: self.inbound_requests.insert(id, number), ..self },
                    seq![NetworkAction::Output(NetworkEvent::SyncRequest(id, peer, p))],
                ),
                None => (self, Seq::empty()),
            },
            Event::SyncResponse(id, peer, response) => (
                self,
                seq![NetworkAction::Output(NetworkEvent::SyncResponse(id, peer, response))],
            ),
            Event::SyncRequestFailed(id, peer, reason) => (
                self,
                seq![NetworkAction::Output(NetworkEvent::SyncRequestFailed(id, peer, reason))],
            ),
            Event::ValidatorProofReceived(peer_id, claim) => (
                self,
                match claim {
                    None => Seq::empty(),
                    Some((named, p)) => if named@ == peer_id.seq() {
                        seq![
                            NetworkAction::Output(
                                NetworkEvent::ValidatorProofReceived { peer_id, proof: p },
                            ),
                        ]
                    } else {
                        seq![NetworkAction::ValidatorProofVerified(peer_id, false, None)]
                    },
                },
            ),
        }
    }

    /// The state after `msg`, other than a subscription, and what follows from
    /// it.
    pub open spec fn handled(self, msg: Msg<P>) -> (RunningView<P>, Seq<NetworkAction<P>>) {
        match msg {
            Msg::Subscribe => (self, Seq::empty()),
            Msg::PublishConsensusMsg(data) => (self, published(Channel::Consensus, data)),
            Msg::PublishLivenessMsg(data) => (self, published(Channel::Liveness, data)),
            Msg::PublishProposalPart(data) => (self, published(Channel::ProposalParts, data)),
            Msg::BroadcastStatus(status) => (
                self,
                seq![NetworkAction::BroadcastStatus(self.peer_id, status)],
            ),
            Msg::OutgoingRequest(peer, data) => (
                self,
                match data {
                    Some(d) => seq![NetworkAction::SyncRequest(peer, d)],
                    None => Seq::empty(),
                },
            ),
            Msg::CancelRequest(_) => (self, Seq::empty()),
            Msg::OutgoingResponse(id, data) => match data {
                Some(d) if self.inbound_requests.contains_key(id) => (
                    RunningView { inbound_requests: self.inbound_requests.remove(id), ..self },
                    seq![NetworkAction::SyncReply(self.inbound_requests[id], d)],
                ),
                _ => (self, Seq::empty()),
            },
            Msg::CancelInboundRequest(id) => (
                RunningView { inbound_requests: self.inbound_requests.remove(id), ..self },
                Seq::empty(),
            ),
            Msg::DumpState => (self, seq![NetworkAction::ReplyDump(true)]),
            Msg::UpdatePersistentPeers(op) => (
                self,
                seq![NetworkAction::UpdatePersistentPeers(op)],
            ),
            Msg::UpdateValidatorSet(p) => (self, seq![NetworkAction::UpdateValidatorSet(p)]),
            Msg::ValidatorProofVerified(peer, valid, key) => (
                self,
                seq![NetworkAction::ValidatorProofVerified(peer, valid, key)],
            ),
            Msg::NewEvent(event) => self.event(event),
        }
    }
}

/// What a stopped actor does: it answers requests for a reply and ignores the
/// rest.
pub open spec fn stopped_actions<P>(msg: Msg<P>) -> Seq<NetworkAction<P>> {
    match msg {
        Msg::DumpState => seq![NetworkAction::ReplyDump(false)],
        Msg::UpdatePersistentPeers(_) => seq![
            NetworkAction::ReplyPersistentPeersError(PersistentPeerError::NetworkStopped),
        ],
        _ => Seq::empty(),
    }
}

impl<P: Ident> Running<P> {
    /// The sets and maps are well formed.
    pub open spec fn wf(self) -> bool {
        self.peers.wf() && self.subscriptions.wf() && self.inbound_requests.wf() && self.peer_id.wf()
    }

    /// The state of an actor that has just started, as this peer.
    pub fn new(peer_id: PeerId) -> (r: Self)
        requires
            peer_id.wf(),
        ensures
            r.wf(),
            r@ == (RunningView::<P> {
                peer_id,
                listen_addrs: Seq::empty(),
                peers: Set::empty(),
                subscriptions: Set::empty(),
                inbound_requests: Map::empty(),
            }),
    {
        let r = Running {
            peer_id,
            listen_addrs: Vec::new(),
            peers: OrdMap::new(),
            subscriptions: VecSet::new(),
            inbound_requests: OrdMap::new(),
        };
        assert(r@.listen_addrs =~= Seq::<P>::empty());
        assert(r@.peers =~= Set::<PeerId>::empty());
        r
    }

    /// What a new subscriber is sent.
    fn subscribe(&self) -> (r: Vec<NetworkAction<P>>)
        ensures
            r@ == welcome(*self),
    {
        let mut actions: Vec<NetworkAction<P>> = Vec::new();
        let ghost first = self.listen_addrs@.map_values(
            |a: P| NetworkAction::SendToSubscriber(NetworkEvent::Listening(a)),
        );
        let ghost second = self.peers.entries@.map_values(
            |e: (PeerId, ())| NetworkAction::SendToSubscriber(NetworkEvent::<P>::PeerConnected(e.0)),
        );
        let ghost third = self.subscriptions.items@.map_values(
            |e: (PeerId, Channel)|
                NetworkAction::SendToSubscriber(NetworkEvent::<P>::PeerSubscribed(e.0, e.1)),
        );
        let mut i: usize = 0;
        while i < self.listen_addrs.len()
            invariant
                i <= self.listen_addrs@.len(),
                first == self.listen_addrs@.map_values(
                    |a: P| NetworkAction::SendToSubscriber(NetworkEvent::Listening(a)),
                ),
                actions@ =~= first.subrange(0, i as int),
            decreases self.listen_addrs@.len() - i,
        {
            actions.push(
                NetworkAction::SendToSubscriber(NetworkEvent::Listening(self.listen_addrs[i].dup())),
            );
            i = i + 1;
        }
        assert(actions@ =~= first);
        let mut j: usize = 0;
        while j < self.peers.entries.len()
            invariant
                j <= self.peers.entries@.len(),
                second == self.peers.entries@.map_values(
                    |e: (PeerId, ())|
                        NetworkAction::SendToSubscriber(NetworkEvent::<P>::PeerConnected(e.0)),
                ),
                actions@ =~= first + second.subrange(0, j as int),
            decreases self.peers.entries@.len() - j,
        {
            actions.push(
                NetworkAction::SendToSubscriber(
                    NetworkEvent::PeerConnected(self.peers.entries[j].0.dup()),
                ),
            );
            j = j + 1;
        }
        assert(actions@ =~= first + second);
        let mut k: usize = 0;
        while k < self.subscriptions.items.len()
            invariant
                k <= self.subscriptions.items@.len(),
                third == self.subscriptions.items@.map_values(
                    |e: (PeerId, Channel)|
                        NetworkAction::SendToSubscriber(
                            NetworkEvent::<P>::PeerSubscribed(e.0, e.1),
                        ),
                ),
                actions@ =~= first + second + third.subrange(0, k as int),
            decreases self.subscriptions.items@.len() - k,
        {
            let (peer, channel) = self.subscriptions.items[k].dup();
            actions.push(
                NetworkAction::SendToSubscriber(NetworkEvent::PeerSubscribed(peer, channel)),
            );
            k = k + 1;
        }
        assert(actions@ =~= first + second + third);
        actions.push(NetworkAction::AttachSubscriber);
        assert(actions@ =~= welcome(*self));
        actions
    }

    /// Handle an event of the peer-to-peer layer.
    fn handle_event(&mut self, event: Event<P>) -> (r: Vec<NetworkAction<P>>)
        requires
            old(self).wf(),
            event matches Event::ValidatorProofReceived(peer, _) ==> peer.wf(),
        ensures
            final(self).wf(),
            (final(self)@, r@) == old(self)@.event(event),
    {
        let ghost want = self@.event(event);
        let mut actions: Vec<NetworkAction<P>> = Vec::new();
        match event {
            Event::Listening(addr) => {
                self.listen_addrs.push(addr.dup());
                actions.push(NetworkAction::Output(NetworkEvent::Listening(addr)));
            },
            Event::PeerConnected(peer) => {
                self.peers.insert(peer, ());
                actions.push(NetworkAction::Output(NetworkEvent::PeerConnected(peer)));
                assert(self@.peers =~= want.0.peers);
            },
            Event::PeerDisconnected(peer) => {
                self.peers.remove(&peer);
                self.subscriptions.remove_first(&peer);
                actions.push(NetworkAction::Output(NetworkEvent::PeerDisconnected(peer)));
                assert(self@.peers =~= want.0.peers);
                assert(self@.subscriptions =~= want.0.subscriptions);
            },
            Event::PeerSubscribed(peer, channel) => {
                self.subscriptions.insert((peer, channel));
                actions.push(NetworkAction::Output(NetworkEvent::PeerSubscribed(peer, channel)));
            },
            Event::PeerUnsubscribed(peer, channel) => {
                self.subscriptions.remove(&(peer, channel));
            },
            Event::ConsensusMessage(from, payload) => {
                match payload {
                    ConsensusPayload::Vote(p) => {
                        actions.push(NetworkAction::Output(NetworkEvent::Vote(from, p)));
                    },
                    ConsensusPayload::Proposal(p) => {
                        actions.push(NetworkAction::Output(NetworkEvent::Proposal(from, p)));
                    },
                    ConsensusPayload::ProposalPart(p) => {
                        actions.push(NetworkAction::Output(NetworkEvent::ProposalPart(from, p)));
                    },
                    ConsensusPayload::Status(peer, status) => {
                        if from.same(&peer) {
                            actions.push(NetworkAction::Output(NetworkEvent::Status(peer, status)));
                        }
                    },
                    ConsensusPayload::Unreadable => {},
                }
            },
            Event::LivenessMessage(from, message) => {
                match message {
                    Some((LivenessKind::PolkaCertificate, p)) => {
                        actions.push(NetworkAction::Output(NetworkEvent::PolkaCertificate(from, p)));
                    },
                    Some((LivenessKind::SkipRoundCertificate, p)) => {
                        actions.push(NetworkAction::Output(NetworkEvent::RoundCertificate(from, p)));
                    },
                    Some((LivenessKind::Vote, p)) => {
                        actions.push(NetworkAction::Output(NetworkEvent::Vote(from, p)));
                    },
                    None => {},
                }
            },
            Event::SyncRequest(id, number, peer, request) => {
                match request {
                    Some(p) => {
                        self.inbound_requests.insert(id, number);
                        actions.push(NetworkAction::Output(NetworkEvent::SyncRequest(id, peer, p)));
                    },
                    None => {},
                }
            },
            Event::SyncResponse(id, peer, response) => {
                actions.push(NetworkAction::Output(NetworkEvent::SyncResponse(id, peer, response)));
            },
            Event::SyncRequestFailed(id, peer, reason) => {
                actions.push(
                    NetworkAction::Output(NetworkEvent::SyncRequestFailed(id, peer, reason)),
                );
            },
            Event::ValidatorProofReceived(peer_id, claim) => {
                match claim {
                    None => {},
                    Some((named, p)) => {
                        let sender = peer_id.to_vec();
                        if same_bytes(named.as_slice(), sender.as_slice()) {
                            actions.push(
                                NetworkAction::Output(
                                    NetworkEvent::ValidatorProofReceived { peer_id, proof: p },
                                ),
                            );
                        } else {
                            actions.push(NetworkAction::ValidatorProofVerified(peer_id, false, None));
                        }
                    },
                }
            },
        }
        assert(actions@ =~= want.1);
        assert(self@ == want.0);
        actions
    }

    /// Handle `msg`.
    fn handle(&mut self, msg: Msg<P>) -> (r: Vec<NetworkAction<P>>)
        requires
            old(self).wf(),
            msg matches Msg::NewEvent(Event::ValidatorProofReceived(peer, _)) ==> peer.wf(),
        ensures
            final(self).wf(),
            match msg {
                Msg::Subscribe => *final(self) == *old(self) && r@ == welcome(*old(self)),
                _ => (final(self)@, r@) == old(self)@.handled(msg),
            },
    {
        let ghost want = self@.handled(msg);
        let mut actions: Vec<NetworkAction<P>> = Vec::new();
        match msg {
            Msg::Subscribe => {
                return self.subscribe();
            },
            Msg::PublishConsensusMsg(data) => {
                if let Some(d) = data {
                    actions.push(NetworkAction::Publish(Channel::Consensus, d));
                }
            },
            Msg::PublishLivenessMsg(data) => {
                if let Some(d) = data {
                    actions.push(NetworkAction::Publish(Channel::Liveness, d));
                }
            },
            Msg::PublishProposalPart(data) => {
                if let Some(d) = data {
                    actions.push(NetworkAction::Publish(Channel::ProposalParts, d));
                }
            },
            Msg::BroadcastStatus(status) => {
                actions.push(NetworkAction::BroadcastStatus(self.peer_id, status));
            },
            Msg::OutgoingRequest(peer, data) => {
                if let Some(d) = data {
                    actions.push(NetworkAction::SyncRequest(peer, d));
                }
            },
            Msg::CancelRequest(_) => {},
            Msg::OutgoingResponse(id, data) => {
                if let Some(d) = data {
                    if let Some(number) = self.inbound_requests.remove(&id) {
                        actions.push(NetworkAction::SyncReply(number, d));
                    } else {
                        assert(self@.inbound_requests =~= want.0.inbound_requests);
                    }
                }
            },
            Msg::CancelInboundRequest(id) => {
                self.inbound_requests.remove(&id);
            },
            Msg::DumpState => {
                actions.push(NetworkAction::ReplyDump(true));
            },
            Msg::UpdatePersistentPeers(op) => {
                actions.push(NetworkAction::UpdatePersistentPeers(op));
            },
            Msg::UpdateValidatorSet(p) => {
                actions.push(NetworkAction::UpdateValidatorSet(p));
            },
            Msg::ValidatorProofVerified(peer, valid, key) => {
                actions.push(NetworkAction::ValidatorProofVerified(peer, valid, key));
            },
            Msg::NewEvent(event) => {
                return self.handle_event(event);
            },
        }
        assert(actions@ =~= want.1);
        assert(self@ == want.0);
        actions
    }
}

impl<P: Ident> State<P> {
    /// The sets and maps are well formed.
    pub open spec fn wf(self) -> bool {
        match self {
            State::Stopped => true,
            State::Running(s) => s.wf(),
        }
    }

    /// Handle `msg`. Requests for a reply are answered in any case; a stopped
    /// actor ignores everything else.
    pub fn handle(&mut self, msg: Msg<P>) -> (r: Vec<NetworkAction<P>>)
        requires
            old(self).wf(),
            msg matches Msg::NewEvent(Event::ValidatorProofReceived(peer, _)) ==> peer.wf(),
        ensures
            final(self).wf(),
            match *old(self) {
                State::Stopped => *final(self) == *old(self) && r@ == stopped_actions(msg),
                State::Running(s) => {
                    &&& *final(self) matches State::Running(t)
                    &&& match msg {
                        Msg::Subscribe => t == s && r@ == welcome(s),
                        _ => (t@, r@) == s@.handled(msg),
                    }
                },
            },
    {
        match self {
            State::Stopped => {
                let mut actions: Vec<NetworkAction<P>> = Vec::new();
                match msg {
                    Msg::DumpState => {
                        actions.push(NetworkAction::ReplyDump(false));
                    },
                    Msg::UpdatePersistentPeers(_) => {
                        actions.push(
                            NetworkAction::ReplyPersistentPeersError(
                                PersistentPeerError::NetworkStopped,
                            ),
                        );
                    },
                    _ => {},
                }
                assert(actions@ =~= stopped_actions(msg));
                actions
            },
            State::Running(s) => s.handle(msg),
        }
    }
}

/// What is replied to a change of the persistent peers: the answer of the
/// peer-to-peer layer, or that it could not be asked.
pub fn persistent_peers_reply(answer: Result<Result<(), PersistentPeerError>, String>) -> (r: Result<
    (),
    PersistentPeerError,
>)
    ensures
        r == (match answer {
            Ok(result) => result,
            Err(e) => Err::<(), PersistentPeerError>(PersistentPeerError::InternalError(e)),
        }),
{
    match answer {
        Ok(result) => result,
        Err(e) => Err(PersistentPeerError::InternalError(e)),
    }
}

/// A response is sent for a pending request once, and never again.
pub proof fn law_request_answered_once<P>(s: RunningView<P>, id: RequestId, first: P, second: Option<P>)
    requires
        s.inbound_requests.contains_key(id),
    ensures
        ({
            let (next, actions) = s.handled(Msg::OutgoingResponse(id, Some(first)));
            &&& actions == seq![NetworkAction::SyncReply(s.inbound_requests[id], first)]
            &&& next.handled(Msg::OutgoingResponse(id, second)).1.len() == 0
        }),
{
}

/// A request that was dropped is not answered.
pub proof fn law_dropped_request_not_answered<P>(s: RunningView<P>, id: RequestId, data: Option<P>)
    ensures
        s.handled(Msg::CancelInboundRequest(id)).0.handled(Msg::OutgoingResponse(id, data)).1.len()
            == 0,
{
}

/// A disconnected peer is neither connected nor subscribed to anything.
pub proof fn law_disconnected_peer_forgotten<P>(s: RunningView<P>, peer: PeerId, channel: Channel)
    ensures
        ({
            let next = s.event(Event::<P>::PeerDisconnected(peer)).0;
            !next.peers.contains(peer) && !next.subscriptions.contains((peer, channel))
        }),
{
}

/// A proof that names another peer than its sender is refused, and nobody is
/// told of it.
pub proof fn law_proof_of_another_peer_refused<P>(s: RunningView<P>, peer: PeerId, named: Vec<u8>, p: P)
    requires
        named@ != peer.seq(),
    ensures
        s.event(Event::ValidatorProofReceived(peer, Some((named, p)))) == (
            s,
            seq![NetworkAction::<P>::ValidatorProofVerified(peer, false, None)],
        ),
{
}

} // verus!
