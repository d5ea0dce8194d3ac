//! What the network actor and the supervisor do for each message, call by call.

use vstd::prelude::*;
use vstd::string::*;

use crate::engine::consensus::LivenessKind;
use crate::engine::event::{NetworkEvent, PeerId, RequestId, Status};
use crate::engine::failure::{
    append_result, flush_result, hang_on_safety_failure, stop_on_failure, Outcome, WalFailure,
};
use crate::engine::network::{
    decoder_for, decodes_liveness, persistent_peers_reply, ConsensusPayload, Decoder, Event, Msg,
    NetworkAction, PersistentPeersOp, Running, State,
};
use crate::engine::node::{NodeAction, NodeInput, NodeMsg, NodeState, SupervisionEvent};
use crate::ident::Ident;
use crate::network::channel::Channel;
use crate::network::peers::PersistentPeerError;

verus! {

/// Whether `event` is what the other actors are to learn from an event of the
/// peer-to-peer layer: of the same kind, from the same peer, with the same content.
pub open spec fn reports<P>(from: Event<P>, event: NetworkEvent<P>) -> bool {
    match event {
        NetworkEvent::Listening(a) => from matches Event::Listening(b) && a == b,
        NetworkEvent::PeerConnected(p) => from matches Event::PeerConnected(q) && p == q,
        NetworkEvent::PeerDisconnected(p) => from matches Event::PeerDisconnected(q) && p == q,
        NetworkEvent::PeerSubscribed(p, c) => from matches Event::PeerSubscribed(q, d) && p == q && c
            == d,
        NetworkEvent::Vote(p, v) => (from matches Event::ConsensusMessage(
            q,
            ConsensusPayload::Vote(w),
        ) && p == q && v == w) || (from matches Event::LivenessMessage(q, Some((LivenessKind::Vote, w)))
            && p == q && v == w),
        NetworkEvent::Proposal(p, v) => from matches Event::ConsensusMessage(
            q,
            ConsensusPayload::Proposal(w),
        ) && p == q && v == w,
        NetworkEvent::ProposalPart(p, v) => from matches Event::ConsensusMessage(
            q,
            ConsensusPayload::ProposalPart(w),
        ) && p == q && v == w,
        NetworkEvent::PolkaCertificate(p, v) => from matches Event::LivenessMessage(
            q,
            Some((LivenessKind::PolkaCertificate, w)),
        ) && p == q && v == w,
        NetworkEvent::RoundCertificate(p, v) => from matches Event::LivenessMessage(
            q,
            Some((LivenessKind::SkipRoundCertificate, w)),
        ) && p == q && v == w,
        NetworkEvent::Status(p, s) => from matches Event::ConsensusMessage(
            q,
            ConsensusPayload::Status(named, t),
        ) && p == q && named == q && s == t,
        NetworkEvent::SyncRequest(i, p, v) => from matches Event::SyncRequest(j, _, q, Some(w)) && i
            == j && p == q && v == w,
        NetworkEvent::SyncResponse(i, p, v) => from matches Event::SyncResponse(j, q, w) && i == j && p
            == q && v == w,
        NetworkEvent::SyncRequestFailed(i, p, x) => from matches Event::SyncRequestFailed(j, q, y) && i
            == j && p == q && x == y,
        NetworkEvent::ValidatorProofReceived { peer_id, proof } => from matches Event::ValidatorProofReceived(
            q,
            Some((named, w)),
        ) && peer_id == q && named@ == q.seq() && proof == w,
    }
}

/// While the network runs, what an event of the peer-to-peer layer is to tell the
/// other actors is told to them, once.
pub proof fn law_event_is_reported<P: Ident>(
    state: &mut State<P>,
    event: Event<P>,
    r: Vec<NetworkAction<P>>,
    told: NetworkEvent<P>,
)
    requires
        call_ensures(State::<P>::handle, (state, Msg::NewEvent(event)), r),
        *old(state) is Running,
        reports(event, told),
    ensures
        r@.len() == 1,
        r@[0] == NetworkAction::Output(told),
{
}

/// Nothing else is told to the other actors, and nothing at all where the network
/// is stopped.
pub proof fn law_nothing_else_is_reported<P: Ident>(
    state: &mut State<P>,
    msg: Msg<P>,
    r: Vec<NetworkAction<P>>,
    i: int,
    told: NetworkEvent<P>,
)
    requires
        call_ensures(State::<P>::handle, (state, msg), r),
        0 <= i < r@.len(),
        r@[i] == NetworkAction::Output(told),
    ensures
        *old(state) is Running,
        msg matches Msg::NewEvent(event) && reports(event, told),
{
    if let State::Running(s) = *old(state) {
        if msg is Subscribe {
            let w = crate::engine::network::welcome(s);
            let a = s.listen_addrs@.len() as int;
            let b = a + s.peers.entries@.len();
            let c = b + s.subscriptions.items@.len();
            assert(w.len() == c + 1);
            assert(i < a ==> w[i] is SendToSubscriber);
            assert(a <= i < b ==> w[i] is SendToSubscriber);
            assert(b <= i < c ==> w[i] is SendToSubscriber);
        }
    }
}

/// The peers that the actor knows are those that connected and did not disconnect
/// since, the subscriptions those of them that were made and not given up, and the
/// addresses those that the node said it listens on, in order.
pub proof fn law_actor_remembers_the_network<P: Ident>(
    state: &mut State<P>,
    event: Event<P>,
    r: Vec<NetworkAction<P>>,
    s: Running<P>,
    t: Running<P>,
    p: PeerId,
    c: Channel,
)
    requires
        call_ensures(State::<P>::handle, (state, Msg::NewEvent(event)), r),
        *old(state) == State::Running(s),
        *final(state) == State::Running(t),
    ensures
        t@.peers.contains(p) == match event {
            Event::PeerConnected(q) => p == q || s@.peers.contains(p),
            Event::PeerDisconnected(q) => p != q && s@.peers.contains(p),
            _ => s@.peers.contains(p),
        },
        t@.subscriptions.contains((p, c)) == match event {
            Event::PeerSubscribed(q, d) => (p == q && c == d) || s@.subscriptions.contains((p, c)),
            Event::PeerUnsubscribed(q, d) => !(p == q && c == d) && s@.subscriptions.contains((p, c)),
            Event::PeerDisconnected(q) => p != q && s@.subscriptions.contains((p, c)),
            _ => s@.subscriptions.contains((p, c)),
        },
        t@.listen_addrs == match event {
            Event::Listening(a) => s@.listen_addrs.push(a),
            _ => s@.listen_addrs,
        },
        t@.peer_id == s@.peer_id,
{
}

/// A request of a peer that could be read is pending under its identifier until it
/// is answered or dropped; nothing else makes or ends one.
pub proof fn law_requests_are_pending<P: Ident>(
    state: &mut State<P>,
    msg: Msg<P>,
    r: Vec<NetworkAction<P>>,
    s: Running<P>,
    t: Running<P>,
    id: RequestId,
)
    requires
        call_ensures(State::<P>::handle, (state, msg), r),
        *old(state) == State::Running(s),
        *final(state) == State::Running(t),
    ensures
        t@.inbound_requests.contains_key(id) == match msg {
            Msg::NewEvent(Event::SyncRequest(j, _, _, Some(_))) => id == j
                || s@.inbound_requests.contains_key(id),
            Msg::OutgoingResponse(j, Some(_)) => id != j && s@.inbound_requests.contains_key(id),
            Msg::CancelInboundRequest(j) => id != j && s@.inbound_requests.contains_key(id),
            _ => s@.inbound_requests.contains_key(id),
        },
        t@.inbound_requests.contains_key(id) ==> t@.inbound_requests[id] == (match msg {
            Msg::NewEvent(Event::SyncRequest(j, number, _, Some(_))) if id == j => number,
            _ => s@.inbound_requests[id],
        }),
{
}

/// A response goes out for a request that is pending, under the number that the
/// transport gave it, and for no other.
pub proof fn law_pending_request_is_answered<P: Ident>(
    state: &mut State<P>,
    id: RequestId,
    data: Option<P>,
    r: Vec<NetworkAction<P>>,
    s: Running<P>,
)
    requires
        call_ensures(State::<P>::handle, (state, Msg::OutgoingResponse(id, data)), r),
        *old(state) == State::Running(s),
    ensures
        s@.inbound_requests.contains_key(id) && data is Some ==> r@.len() == 1 && r@[0]
            == NetworkAction::SyncReply(s@.inbound_requests[id], data->Some_0),
        !s@.inbound_requests.contains_key(id) || data is None ==> r@.len() == 0,
{
}

/// What could be encoded is published on the channel of its kind; what could not
/// is not.
pub proof fn law_messages_are_published_on_their_channels<P: Ident>(
    state: &mut State<P>,
    msg: Msg<P>,
    r: Vec<NetworkAction<P>>,
    channel: Channel,
    data: Option<P>,
)
    requires
        call_ensures(State::<P>::handle, (state, msg), r),
        *old(state) is Running,
        msg == Msg::PublishConsensusMsg(data) && channel == Channel::Consensus || msg
            == Msg::PublishLivenessMsg(data) && channel == Channel::Liveness || msg
            == Msg::PublishProposalPart(data) && channel == Channel::ProposalParts,
    ensures
        data matches Some(d) ==> r@.len() == 1 && r@[0] == NetworkAction::Publish(channel, d),
        data is None ==> r@.len() == 0,
{
}

/// What the other actors ask of the network is passed on: the status of this node
/// under its own name, requests to their peers, the validator set, verdicts on
/// proofs, and changes of the persistent peers.
pub proof fn law_requests_are_passed_on<P: Ident>(
    state: &mut State<P>,
    msg: Msg<P>,
    r: Vec<NetworkAction<P>>,
    s: Running<P>,
)
    requires
        call_ensures(State::<P>::handle, (state, msg), r),
        *old(state) == State::Running(s),
    ensures
        msg matches Msg::BroadcastStatus(status) ==> r@.len() == 1 && r@[0]
            == NetworkAction::<P>::BroadcastStatus(s@.peer_id, status),
        msg matches Msg::OutgoingRequest(peer, Some(d)) ==> r@.len() == 1 && r@[0]
            == NetworkAction::SyncRequest(peer, d),
        msg matches Msg::OutgoingRequest(_, None) ==> r@.len() == 0,
        msg matches Msg::UpdateValidatorSet(p) ==> r@.len() == 1 && r@[0]
            == NetworkAction::UpdateValidatorSet(p),
        msg matches Msg::ValidatorProofVerified(peer, valid, key) ==> r@.len() == 1 && r@[0]
            == NetworkAction::ValidatorProofVerified(peer, valid, key),
        msg matches Msg::UpdatePersistentPeers(op) ==> r@.len() == 1 && r@[0]
            == NetworkAction::UpdatePersistentPeers(op),
        msg is DumpState ==> r@.len() == 1 && r@[0] == NetworkAction::<P>::ReplyDump(true),
        msg is CancelRequest ==> r@.len() == 0,
        msg is CancelInboundRequest ==> r@.len() == 0,
{
}

/// A validator proof that names another peer than the one that sent it is refused
/// at once, and one that cannot be read leads to nothing.
pub proof fn law_foreign_proof_is_refused<P: Ident>(
    state: &mut State<P>,
    peer: PeerId,
    claim: Option<(Vec<u8>, P)>,
    r: Vec<NetworkAction<P>>,
)
    requires
        call_ensures(
            State::<P>::handle,
            (state, Msg::NewEvent(Event::ValidatorProofReceived(peer, claim))),
            r,
        ),
        *old(state) is Running,
    ensures
        claim is None ==> r@.len() == 0,
        claim matches Some((named, _)) ==> (named@ != peer.seq() ==> r@.len() == 1 && r@[0]
            == NetworkAction::<P>::ValidatorProofVerified(peer, false, None)),
{
}

/// What could not be read, and a status that names another peer, lead to nothing.
pub proof fn law_unreadable_messages_are_dropped<P: Ident>(
    state: &mut State<P>,
    event: Event<P>,
    r: Vec<NetworkAction<P>>,
)
    requires
        call_ensures(State::<P>::handle, (state, Msg::NewEvent(event)), r),
        match event {
            Event::ConsensusMessage(_, ConsensusPayload::Unreadable) => true,
            Event::ConsensusMessage(from, ConsensusPayload::Status(named, _)) => from != named,
            Event::LivenessMessage(_, None) => true,
            Event::SyncRequest(_, _, _, None) => true,
            Event::PeerUnsubscribed(_, _) => true,
            _ => false,
        },
    ensures
        r@.len() == 0,
{
}

/// A new subscriber learns of every address that the node listens on, of every
/// connected peer and of every subscription, and is attached after that.
pub proof fn law_subscriber_learns_what_is_known<P: Ident>(
    state: &mut State<P>,
    r: Vec<NetworkAction<P>>,
    s: Running<P>,
    a: P,
    p: PeerId,
    c: Channel,
)
    requires
        call_ensures(State::<P>::handle, (state, Msg::Subscribe), r),
        *old(state) == State::Running(s),
        s.wf(),
    ensures
        *final(state) == *old(state),
        s@.listen_addrs.contains(a) ==> r@.contains(
            NetworkAction::SendToSubscriber(NetworkEvent::Listening(a)),
        ),
        s@.peers.contains(p) ==> r@.contains(
            NetworkAction::SendToSubscriber(NetworkEvent::PeerConnected(p)),
        ),
        s@.subscriptions.contains((p, c)) ==> r@.contains(
            NetworkAction::SendToSubscriber(NetworkEvent::PeerSubscribed(p, c)),
        ),
        r@.len() == s.listen_addrs@.len() + s.peers.entries@.len() + s.subscriptions.items@.len() + 1,
        r@.last() == NetworkAction::<P>::AttachSubscriber,
{
    let w = r@;
    let n = s.listen_addrs@.len() as int;
    let m = n + s.peers.entries@.len();
    if s@.listen_addrs.contains(a) {
        let i = choose|i: int| 0 <= i < s.listen_addrs@.len() && s.listen_addrs@[i] == a;
        assert(w[i] == NetworkAction::SendToSubscriber(NetworkEvent::Listening(a)));
    }
    if s@.peers.contains(p) {
        let i = s.peers.index_of(p);
        assert(s.peers.has(p));
        assert(s.peers.entries@[i].0 == p);
        assert(w[n + i] == NetworkAction::<P>::SendToSubscriber(NetworkEvent::PeerConnected(p)));
    }
    if s@.subscriptions.contains((p, c)) {
        assert(s.subscriptions.items@.contains((p, c)));
        let i = choose|i: int| 0 <= i < s.subscriptions.items@.len() && s.subscriptions.items@[i] == (
            p,
            c,
        );
        assert(w[m + i] == NetworkAction::<P>::SendToSubscriber(NetworkEvent::PeerSubscribed(p, c)));
    }
}

/// A stopped network answers whoever waits for an answer, and does nothing else.
pub proof fn law_stopped_network_answers<P: Ident>(
    state: &mut State<P>,
    msg: Msg<P>,
    r: Vec<NetworkAction<P>>,
)
    requires
        call_ensures(State::<P>::handle, (state, msg), r),
        *old(state) is Stopped,
    ensures
        *final(state) is Stopped,
        msg is DumpState ==> r@.len() == 1 && r@[0] == NetworkAction::<P>::ReplyDump(false),
        msg is UpdatePersistentPeers ==> r@.len() == 1 && r@[0] == NetworkAction::<P>::ReplyPersistentPeersError(
            PersistentPeerError::NetworkStopped,
        ),
        !(msg is DumpState) && !(msg is UpdatePersistentPeers) ==> r@.len() == 0,
{
}

/// Each channel carries one kind of message, and liveness messages are read on
/// theirs alone.
pub proof fn law_channels_carry_one_kind(channel: Channel, decoder: Decoder, liveness: bool)
    requires
        call_ensures(decoder_for, (channel,), decoder),
        call_ensures(decodes_liveness, (channel,), liveness),
    ensures
        decoder == Decoder::ConsensusMsg <==> channel == Channel::Consensus,
        decoder == Decoder::ProposalPart <==> channel == Channel::ProposalParts,
        decoder == Decoder::Status <==> channel == Channel::Sync,
        decoder == Decoder::Unexpected <==> liveness,
        liveness <==> channel == Channel::Liveness,
{
}

/// The answer of the peer-to-peer layer is the reply; where it cannot be asked, the
/// reply is an internal error for that reason.
pub proof fn law_persistent_peers_are_answered(
    answer: Result<Result<(), PersistentPeerError>, String>,
    r: Result<(), PersistentPeerError>,
)
    requires
        call_ensures(persistent_peers_reply, (answer,), r),
    ensures
        answer matches Ok(a) ==> r == a,
        answer matches Err(e) ==> (r matches Err(PersistentPeerError::InternalError(m)) && m == e),
{
}

/// A step that succeeds goes on with its value, whatever its failure would lead to;
/// one that fails never does.
pub proof fn law_success_goes_on<A>(
    result: Result<A, String>,
    stop: Outcome<A>,
    hang: Outcome<A>,
)
    requires
        call_ensures(stop_on_failure::<A>, (result,), stop),
        call_ensures(hang_on_safety_failure::<A>, (result,), hang),
    ensures
        result matches Ok(v) ==> stop == Outcome::Continue(v) && hang == Outcome::Continue(v),
        result matches Err(e) ==> stop is Fail && hang == Outcome::<A>::HangWith(e),
        result matches Err(e) ==> (stop matches Outcome::Fail(m) && m@ == "liveness failure: "@ + e@),
{
}

/// A request to the log succeeds exactly where it was delivered and carried out;
/// a failure to deliver it is told from one of the log, and writing from flushing.
pub proof fn law_log_failures_are_told_apart(
    reply: Result<Result<(), String>, String>,
    append: Result<(), WalFailure>,
    flush: Result<(), WalFailure>,
)
    requires
        call_ensures(append_result, (reply,), append),
        call_ensures(flush_result, (reply,), flush),
    ensures
        append is Ok <==> reply matches Ok(Ok(())),
        flush is Ok <==> reply matches Ok(Ok(())),
        append matches Err(f) ==> f is Write || f is Transport,
        flush matches Err(f) ==> f is Flush || f is Transport,
        reply matches Ok(Err(e)) ==> append == Err::<(), WalFailure>(WalFailure::Write(e)) && flush
            == Err::<(), WalFailure>(WalFailure::Flush(e)),
        reply matches Err(e) ==> append == Err::<(), WalFailure>(WalFailure::Transport(e)) && flush
            == append,
{
}

/// The first safety failure hangs the node, with its reason, and its actors are
/// stopped; another one changes nothing.
pub proof fn law_safety_failure_hangs_the_node(node: &mut NodeState, reason: String, r: NodeAction)
    requires
        call_ensures(NodeState::handle, (node, NodeMsg::SafetyFailure(reason)), r),
    ensures
        final(node).safety_hang,
        final(node).shutting_down == old(node).shutting_down,
        !old(node).safety_hang ==> r == NodeAction::HangAndStopChildren(reason),
        old(node).safety_hang ==> r is Stay,
{
}

/// An actor that fails or terminates stops the node, for a reason that names the
/// actor, unless the node hangs or is stopping; nothing else that becomes of an
/// actor does.
pub proof fn law_lost_actor_stops_the_node(node: &mut NodeState, event: SupervisionEvent, r: NodeAction)
    requires
        call_ensures(NodeState::handle_supervisor_evt, (node, event), r),
    ensures
        r is Stop <==> (event is ActorFailed || event is ActorTerminated) && !old(node).safety_hang && !old(
            node,
        ).shutting_down,
        r is Stop || r is Stay,
        final(node).shutting_down == (old(node).shutting_down || r is Stop),
        final(node).safety_hang == old(node).safety_hang,
        r matches NodeAction::Stop(m) ==> match event {
            SupervisionEvent::ActorFailed(id, e) => m@ =~= "child actor failed: "@ + id@ + " ("@ + e@
                + ")"@,
            SupervisionEvent::ActorTerminated(id, Some(t)) => m@ =~= "child actor terminated: "@ + id@
                + " ("@ + t@ + ")"@,
            SupervisionEvent::ActorTerminated(id, None) => m@ =~= "child actor terminated: "@ + id@
                + " ("@ + ")"@,
            _ => false,
        },
{
}

/// Of all that a supervisor is told, a lost actor alone stops the node, and the first
/// safety failure alone hangs it.
pub proof fn law_only_loss_stops_the_node(node: &mut NodeState, input: NodeInput, r: NodeAction)
    requires
        call_ensures(NodeState::step, (node, input), r),
    ensures
        r is Stop <==> (input matches NodeInput::Supervision(e) && (e is ActorFailed
            || e is ActorTerminated)) && !old(node).safety_hang && !old(node).shutting_down,
        r is HangAndStopChildren <==> input is Msg && !old(node).safety_hang,
        final(node).safety_hang == (old(node).safety_hang || input is Msg),
        final(node).shutting_down == (old(node).shutting_down || r is Stop),
{
}

} // verus!
