//! Who a proof is sent to, and which proofs are accepted.

use vstd::prelude::*;
use vstd::string::*;

use crate::engine::event::PeerId;
use crate::ident::OrdMap;
use crate::network::peer::{bytes_view, copy_bytes};
use crate::network::validator_proof::codec::{ProofRequest, ProofRequestView};

verus! {

/// How long a request may take, in milliseconds. It is longer than a read may
/// take, so that a slow read comes as a malformed request.
pub const REQUEST_TIMEOUT: u64 = 10_000;

/// How many streams a connection may have at a time.
pub const MAX_CONCURRENT_STREAMS: usize = 4;

/// The verdict on a proof.
#[derive(Clone, Copy, Debug, PartialEq, Eq, Structural)]
pub enum ProofVerificationResult {
    Valid,
    Invalid,
}

impl ProofVerificationResult {
    /// Whether the proof is valid.
    pub fn is_valid(&self) -> (r: bool)
        ensures
            r == (*self == ProofVerificationResult::Valid),
    {
        matches!(self, ProofVerificationResult::Valid)
    }
}

/// What went wrong with sending a proof.
pub enum Error {
    Io(String),
}

impl Error {
    /// The text of the error.
    pub fn message(&self) -> (r: String)
        ensures
            self matches Error::Io(e) && r@ == "IO error: "@ + e@,
    {
        match self {
            Error::Io(e) => "IO error: ".to_owned().concat(e.as_str()),
        }
    }
}

/// An event of the protocol.
pub enum Event {
    /// The proof of this node was sent; whether it came in is not known.
    ProofSent { peer: PeerId },
    /// A peer has sent its proof.
    ProofReceived { peer: PeerId, proof_bytes: Vec<u8> },
    /// The proof of this node could not be sent.
    ProofSendFailed { peer: PeerId, error: Error },
}

/// What becomes of a request.
pub enum RequestOutcome {
    /// The first proof of the peer: it is delivered.
    Deliver(Vec<u8>),
    /// The peer is disconnected, for this reason.
    Reject(&'static str),
}

/// What becomes of a request, as a value.
pub enum OutcomeView {
    Deliver(Seq<u8>),
    Reject(Seq<char>),
}

impl View for RequestOutcome {
    type V = OutcomeView;

    open spec fn view(&self) -> OutcomeView {
        match self {
            RequestOutcome::Deliver(b) => OutcomeView::Deliver(b@),
            RequestOutcome::Reject(t) => OutcomeView::Reject(t@),
        }
    }
}

/// An event of the requests and responses that carry the proofs.
pub enum InnerEvent {
    /// A request came in.
    Request(PeerId, ProofRequest),
    /// A response came in.
    Response(PeerId),
    /// A request could not be sent, for this reason.
    OutboundFailure(PeerId, String),
    /// A request was answered, or its stream failed after it was read.
    Other,
}

/// What follows from an event.
pub enum Output {
    /// The event is reported.
    Emit(Event),
    /// All connections to the peer are closed.
    CloseConnections(PeerId),
}

/// What the connections to a peer have come to.
#[derive(Clone, Copy, Debug, PartialEq, Eq, Structural)]
pub enum ConnectionEvent {
    /// A connection was made, with this many others to the same peer.
    Established { others: usize },
    /// A connection was closed, with this many left to the same peer.
    Closed { remaining: usize },
}

/// The proofs that are sent and accepted. A peer may send one proof for as long
/// as it stays connected.
pub struct Behaviour {
    pub proof_bytes: Option<Vec<u8>>,
    pub proofs_received: OrdMap<PeerId, ()>,
}

/// The proofs that are sent and accepted, as a value.
pub struct BehaviourView {
    pub proof_bytes: Option<Seq<u8>>,
    pub received: Set<PeerId>,
}

impl View for Behaviour {
    type V = BehaviourView;

    open spec fn view(&self) -> BehaviourView {
        BehaviourView {
            proof_bytes: bytes_view(self.proof_bytes),
            received: self.proofs_received@.dom(),
        }
    }
}

impl BehaviourView {
    /// What becomes of a request of `peer`.
    pub open spec fn classify(self, peer: PeerId, request: ProofRequestView) -> (
        BehaviourView,
        OutcomeView,
    ) {
        match request {
            ProofRequestView::Malformed => (self, OutcomeView::Reject("malformed validator proof"@)),
            ProofRequestView::Proof(b) => if self.received.contains(peer) {
                (self, OutcomeView::Reject("duplicate validator proof"@))
            } else {
                (
                    BehaviourView { received: self.received.insert(peer), ..self },
                    OutcomeView::Deliver(b),
                )
            },
        }
    }

    /// The state after the last connection to `peer` was closed.
    pub open spec fn session_over(self, peer: PeerId) -> BehaviourView {
        BehaviourView { received: self.received.remove(peer), ..self }
    }
}

impl Default for Behaviour {
    fn default() -> (r: Self)
        ensures
            r.wf(),
            r@ == (BehaviourView { proof_bytes: None, received: Set::empty() }),
    {
        Behaviour::new()
    }
}

impl Behaviour {
    /// The map is well formed.
    pub open spec fn wf(self) -> bool {
        self.proofs_received.wf()
    }

    /// No proof to send, and none received.
    pub fn new() -> (r: Self)
        ensures
            r.wf(),
            r@ == (BehaviourView { proof_bytes: None, received: Set::empty() }),
    {
        let r = Behaviour { proof_bytes: None, proofs_received: OrdMap::new() };
        assert(r@.received =~= Set::<PeerId>::empty());
        r
    }

    /// The name of the protocol where none is configured.
    pub fn default_protocol() -> (r: &'static str)
        ensures
            r@ == "/malachitebft-validator-proof/v1"@,
    {
        "/malachitebft-validator-proof/v1"
    }

    /// Send this proof to peers from now on.
    pub fn set_proof(&mut self, proof_bytes: Vec<u8>)
        requires
            old(self).wf(),
        ensures
            final(self).wf(),
            final(self)@ == (BehaviourView { proof_bytes: Some(proof_bytes@), ..old(self)@ }),
    {
        self.proof_bytes = Some(proof_bytes);
    }

    /// Whether there is a proof to send.
    pub fn has_proof(&self) -> (r: bool)
        ensures
            r == self@.proof_bytes is Some,
    {
        self.proof_bytes.is_some()
    }

    /// Decide on a request, and take note of the first proof of a peer.
    pub fn classify_request(&mut self, peer: PeerId, request: ProofRequest) -> (r: RequestOutcome)
        requires
            old(self).wf(),
        ensures
            final(self).wf(),
            (final(self)@, r@) == old(self)@.classify(peer, request@),
    {
        let ghost start = self@;
        match request {
            ProofRequest::Malformed => RequestOutcome::Reject("malformed validator proof"),
            ProofRequest::Proof(bytes) => {
                if self.proofs_received.contains_key(&peer) {
                    RequestOutcome::Reject("duplicate validator proof")
                } else {
                    self.proofs_received.insert(peer, ());
                    assert(self@.received =~= start.received.insert(peer));
                    RequestOutcome::Deliver(bytes)
                }
            },
        }
    }

    /// What is sent to a peer on the first connection to it.
    pub fn on_connection_established(&self) -> (r: Option<ProofRequest>)
        ensures
            match r {
                Some(q) => self@.proof_bytes matches Some(b) && q@ == ProofRequestView::Proof(b),
                None => self@.proof_bytes is None,
            },
    {
        match copy_bytes(&self.proof_bytes) {
            Some(b) => Some(ProofRequest::Proof(b)),
            None => None,
        }
    }

    /// Accept a proof of the peer again, since its last connection was closed.
    pub fn on_last_connection_closed(&mut self, peer: PeerId)
        requires
            old(self).wf(),
        ensures
            final(self).wf(),
            final(self)@ == old(self)@.session_over(peer),
    {
        let ghost start = self@;
        self.proofs_received.remove(&peer);
        assert(self@.received =~= start.received.remove(peer));
    }

    /// What is sent to a peer after a connection to it was made or closed: the
    /// proof on the first connection, nothing else.
    pub fn on_swarm_event(&mut self, peer: PeerId, event: ConnectionEvent) -> (r: Option<ProofRequest>)
        requires
            old(self).wf(),
        ensures
            final(self).wf(),
            final(self)@ == (match event {
                ConnectionEvent::Closed { remaining } => if remaining == 0 {
                    old(self)@.session_over(peer)
                } else {
                    old(self)@
                },
                ConnectionEvent::Established { others } => old(self)@,
            }),
            match r {
                Some(q) => event == (ConnectionEvent::Established { others: 0 }) && (
                old(self)@.proof_bytes matches Some(b) && q@ == ProofRequestView::Proof(b)),
                None => event != (ConnectionEvent::Established { others: 0 })
                    || old(self)@.proof_bytes is None,
            },
    {
        match event {
            ConnectionEvent::Established { others } => {
                if others == 0 {
                    self.on_connection_established()
                } else {
                    None
                }
            },
            ConnectionEvent::Closed { remaining } => {
                if remaining == 0 {
                    self.on_last_connection_closed(peer);
                }
                None
            },
        }
    }

    /// What follows from an event of the requests and responses. Every request
    /// is to be answered with a response without bytes.
    pub fn on_inner_event(&mut self, event: InnerEvent) -> (r: Option<Output>)
        requires
            old(self).wf(),
        ensures
            final(self).wf(),
            match event {
                InnerEvent::Request(peer, request) => ({
                    let (next, outcome) = old(self)@.classify(peer, request@);
                    &&& final(self)@ == next
                    &&& match outcome {
                        OutcomeView::Deliver(b) => r matches Some(
                            Output::Emit(Event::ProofReceived { peer: p, proof_bytes }),
                        ) && p == peer && proof_bytes@ == b,
                        OutcomeView::Reject(_) => r == Some(Output::CloseConnections(peer)),
                    }
                }),
                InnerEvent::Response(peer) => final(self)@ == old(self)@ && r == Some(
                    Output::Emit(Event::ProofSent { peer }),
                ),
                InnerEvent::OutboundFailure(peer, error) => final(self)@ == old(self)@ && r == Some(
                    Output::Emit(Event::ProofSendFailed { peer, error: Error::Io(error) }),
                ),
                InnerEvent::Other => final(self)@ == old(self)@ && r is None,
            },
    {
        match event {
            InnerEvent::Request(peer, request) => {
                match self.classify_request(peer, request) {
                    RequestOutcome::Deliver(proof_bytes) => Some(
                        Output::Emit(Event::ProofReceived { peer, proof_bytes }),
                    ),
                    RequestOutcome::Reject(_) => Some(Output::CloseConnections(peer)),
                }
            },
            InnerEvent::Response(peer) => Some(Output::Emit(Event::ProofSent { peer })),
            InnerEvent::OutboundFailure(peer, error) => Some(
                Output::Emit(Event::ProofSendFailed { peer, error: Error::Io(error) }),
            ),
            InnerEvent::Other => None,
        }
    }
}

/// A peer has one proof delivered while it stays connected: once one was
/// delivered, any other request of it is rejected.
pub proof fn law_one_proof_per_session(
    s: BehaviourView,
    peer: PeerId,
    first: ProofRequestView,
    second: ProofRequestView,
)
    requires
        s.classify(peer, first).1 is Deliver,
    ensures
        s.classify(peer, first).0.classify(peer, second).1 is Reject,
        s.classify(peer, first).0.classify(peer, second).0 == s.classify(peer, first).0,
{
}

/// A peer that has connected anew has its proof delivered, whatever it sent
/// before.
pub proof fn law_new_session_delivers(s: BehaviourView, peer: PeerId, proof_bytes: Seq<u8>)
    ensures
        s.session_over(peer).classify(peer, ProofRequestView::Proof(proof_bytes)).1
            == OutcomeView::Deliver(proof_bytes),
{
}

/// What a peer sends changes nothing for other peers.
pub proof fn law_peers_are_independent(
    s: BehaviourView,
    peer: PeerId,
    other: PeerId,
    request: ProofRequestView,
    later: ProofRequestView,
)
    requires
        peer != other,
    ensures
        s.classify(peer, request).0.classify(other, later).1 == s.classify(other, later).1,
{
}

/// A malformed request is rejected and leaves no trace, so that a proof can
/// still follow on a new connection.
pub proof fn law_malformed_leaves_no_trace(s: BehaviourView, peer: PeerId)
    ensures
        s.classify(peer, ProofRequestView::Malformed).0 == s,
        s.classify(peer, ProofRequestView::Malformed).1 is Reject,
{
}

} // verus!
