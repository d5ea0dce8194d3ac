//! What the sync actor does for each message and for each effect of the core, call
//! by call.

use vstd::prelude::*;

use crate::engine::event::{NetworkEvent, OutboundFailureReason, PeerId, RequestId, Status};
use crate::engine::sync::{
    drain_inbound_requests_for_peer, drop_inbound_steps, heights_up_to, lemma_heights_up_to,
    lemma_retry_delay_values, lemma_sent_by, lemma_sent_to, local_transient_retry_delay,
    process_value_response, sent_by, sent_to, size_sum, status_update_mode, sync_queue_capacity,
    truncate_values_to_size_limit, value_actions, InboundFailureReason, InflightRequest, Msg,
    Params, State, StatusUpdateMode, SyncAction, SyncConfig, SyncEffect, SyncInput, SyncTimeout,
};
use crate::ident::{Ident, OrdMap};
use crate::network::channel::Channel;

verus! {

/// Whether the core processes `input`, and nothing else, in `actions`.
pub open spec fn only_input<P>(actions: Seq<SyncAction<P>>, input: SyncInput<P>) -> bool {
    exists|i: int|
        0 <= i < actions.len() && #[trigger] actions[i] == SyncAction::Process(input) && forall|j: int|
            0 <= j < actions.len() && j != i ==> !((#[trigger] actions[j]) is Process)
}

/// Whether the core processes nothing in `actions`.
pub open spec fn no_input<P>(actions: Seq<SyncAction<P>>) -> bool {
    forall|j: int| 0 <= j < actions.len() ==> !((#[trigger] actions[j]) is Process)
}

/// A request of a peer is processed by the core, with its identifier and its
/// sender, exactly once. It is pending from then on, and the application has as
/// long as a request may take to answer it.
pub proof fn law_request_of_a_peer_is_processed<P: Ident>(
    state: &mut State<P>,
    params: &Params,
    config: &SyncConfig,
    id: RequestId,
    from: PeerId,
    request: P,
    r: Vec<SyncAction<P>>,
)
    requires
        call_ensures(
            State::<P>::handle_msg,
            (state, params, config, Msg::NetworkEvent(NetworkEvent::SyncRequest(id, from, request))),
            r,
        ),
    ensures
        only_input(r@, SyncInput::ValueRequest(id, from, request)),
        r@.len() == 2,
        r@.contains(
            SyncAction::StartTimer(SyncTimeout::InboundRequest(id), params.request_timeout),
        ),
        final(state)@.inbound.contains_key(id) && final(state)@.inbound[id] == from,
        forall|other: RequestId|
            other != id ==> #[trigger] final(state)@.inbound.contains_key(other) == old(
                state,
            )@.inbound.contains_key(other),
        forall|other: RequestId|
            other != id && #[trigger] old(state)@.inbound.contains_key(other)
                ==> final(state)@.inbound[other] == old(state)@.inbound[other],
        final(state)@.inflight == old(state)@.inflight,
        final(state)@.attempts == old(state)@.attempts,
{
    assert(r@[1] == SyncAction::Process(SyncInput::ValueRequest(id, from, request)));
    assert(r@[0] is StartTimer);
}

/// The response to a request that is waited for is processed by the core as it
/// came, its timer is cancelled, and it is no longer waited for. Any other response
/// is not processed, and changes nothing.
pub proof fn law_awaited_response_is_processed<P: Ident>(
    state: &mut State<P>,
    params: &Params,
    config: &SyncConfig,
    id: RequestId,
    peer: PeerId,
    response: Option<P>,
    r: Vec<SyncAction<P>>,
)
    requires
        call_ensures(
            State::<P>::handle_msg,
            (state, params, config, Msg::NetworkEvent(NetworkEvent::SyncResponse(id, peer, response))),
            r,
        ),
    ensures
        r@.len() > 0 && r@[0] == SyncAction::<P>::CancelTimer(SyncTimeout::Request(id)),
        old(state)@.inflight.contains_key(id) ==> only_input(
            r@,
            SyncInput::ValueResponse(id, peer, response),
        ) && r@.len() == 2,
        !old(state)@.inflight.contains_key(id) ==> no_input(r@) && r@.len() == 1 && final(state)@
            == old(state)@,
        !final(state)@.inflight.contains_key(id),
        forall|other: RequestId|
            other != id ==> #[trigger] final(state)@.inflight.contains_key(other) == old(
                state,
            )@.inflight.contains_key(other),
        forall|other: RequestId|
            other != id && #[trigger] old(state)@.inflight.contains_key(other)
                ==> final(state)@.inflight[other] == old(state)@.inflight[other],
        final(state)@.inbound == old(state)@.inbound,
        final(state)@.attempts == old(state)@.attempts,
{
    if old(state)@.inflight.contains_key(id) {
        assert(r@[1] == SyncAction::Process(SyncInput::ValueResponse(id, peer, response)));
    }
}

/// A request that is waited for and fails is processed by the core as that, with
/// the peer that it was sent to, the request itself and the reason, and is no
/// longer waited for. Any other failure is not processed, and changes nothing.
pub proof fn law_awaited_failure_is_processed<P: Ident>(
    state: &mut State<P>,
    params: &Params,
    config: &SyncConfig,
    id: RequestId,
    peer: PeerId,
    reason: OutboundFailureReason,
    r: Vec<SyncAction<P>>,
)
    requires
        call_ensures(
            State::<P>::handle_msg,
            (
                state,
                params,
                config,
                Msg::NetworkEvent(NetworkEvent::SyncRequestFailed(id, peer, reason)),
            ),
            r,
        ),
    ensures
        r@.len() > 0 && r@[0] == SyncAction::<P>::CancelTimer(SyncTimeout::Request(id)),
        old(state)@.inflight.contains_key(id) ==> only_input(
            r@,
            SyncInput::SyncRequestFailed(
                id,
                old(state)@.inflight[id].peer_id,
                old(state)@.inflight[id].request,
                reason,
            ),
        ) && r@.len() == 2,
        !old(state)@.inflight.contains_key(id) ==> no_input(r@) && r@.len() == 1,
        final(state)@.inflight == old(state)@.inflight.remove(id),
        final(state)@.inbound == old(state)@.inbound,
        final(state)@.attempts == old(state)@.attempts,
{
    if old(state)@.inflight.contains_key(id) {
        assert(r@[1] is Process);
        assert(r@[1] == SyncAction::Process(
            SyncInput::SyncRequestFailed(
                id,
                old(state)@.inflight[id].peer_id,
                old(state)@.inflight[id].request,
                reason,
            ),
        ));
    } else {
        assert(old(state)@.inflight.remove(id) =~= old(state)@.inflight);
    }
}

/// A request that is waited for and times out is processed by the core as that,
/// with the peer that it was sent to and the request itself, and is no longer
/// waited for. A timer of any other request leads to nothing.
pub proof fn law_awaited_timeout_is_processed<P: Ident>(
    state: &mut State<P>,
    params: &Params,
    config: &SyncConfig,
    id: RequestId,
    r: Vec<SyncAction<P>>,
)
    requires
        call_ensures(
            State::<P>::handle_msg,
            (state, params, config, Msg::TimeoutElapsed(Some(SyncTimeout::Request(id)))),
            r,
        ),
    ensures
        old(state)@.inflight.contains_key(id) ==> only_input(
            r@,
            SyncInput::SyncRequestTimedOut(
                id,
                old(state)@.inflight[id].peer_id,
                old(state)@.inflight[id].request,
            ),
        ) && r@.len() == 1,
        !old(state)@.inflight.contains_key(id) ==> r@.len() == 0,
        final(state)@.inflight == old(state)@.inflight.remove(id),
        final(state)@.inbound == old(state)@.inbound,
        final(state)@.attempts == old(state)@.attempts,
{
    if old(state)@.inflight.contains_key(id) {
        assert(r@[0] == SyncAction::Process(
            SyncInput::SyncRequestTimedOut(
                id,
                old(state)@.inflight[id].peer_id,
                old(state)@.inflight[id].request,
            ),
        ));
    } else {
        assert(old(state)@.inflight.remove(id) =~= old(state)@.inflight);
    }
}

/// A request of a peer that the application takes too long for is dropped from
/// the network and counted as that, and is no longer pending. A timer of any other
/// request leads to nothing.
pub proof fn law_stalled_request_is_dropped<P: Ident>(
    state: &mut State<P>,
    params: &Params,
    config: &SyncConfig,
    id: RequestId,
    r: Vec<SyncAction<P>>,
)
    requires
        call_ensures(
            State::<P>::handle_msg,
            (state, params, config, Msg::TimeoutElapsed(Some(SyncTimeout::InboundRequest(id)))),
            r,
        ),
    ensures
        old(state)@.inbound.contains_key(id) ==> {
            &&& r@.len() == 2
            &&& r@.contains(SyncAction::NetworkCancelInboundRequest(id))
            &&& r@.contains(
                SyncAction::CountInboundFailure(id, InboundFailureReason::HostStallTimeout),
            )
        },
        !old(state)@.inbound.contains_key(id) ==> r@.len() == 0,
        final(state)@.inbound == old(state)@.inbound.remove(id),
        final(state)@.inflight == old(state)@.inflight,
        final(state)@.attempts == old(state)@.attempts,
{
    if old(state)@.inbound.contains_key(id) {
        assert(r@[0] == SyncAction::<P>::NetworkCancelInboundRequest(id));
        assert(r@[1] == SyncAction::<P>::CountInboundFailure(
            id,
            InboundFailureReason::HostStallTimeout,
        ));
    } else {
        assert(old(state)@.inbound.remove(id) =~= old(state)@.inbound);
    }
}

/// After the delay for a retry the core learns of the failure at that height, and
/// a timer that was cancelled in the meantime leads to nothing.
pub proof fn law_retry_is_processed<P: Ident>(
    state: &mut State<P>,
    params: &Params,
    config: &SyncConfig,
    height: Option<u64>,
    r: Vec<SyncAction<P>>,
)
    requires
        call_ensures(
            State::<P>::handle_msg,
            (
                state,
                params,
                config,
                Msg::TimeoutElapsed(
                    match height {
                        Some(h) => Some(SyncTimeout::Retry(h)),
                        None => None,
                    },
                ),
            ),
            r,
        ),
    ensures
        final(state)@ == old(state)@,
        height matches Some(h) ==> only_input(r@, SyncInput::LocalTransientError(h)) && r@.len() == 1,
        height is None ==> r@.len() == 0,
{
    if let Some(h) = height {
        assert(r@[0] == SyncAction::<P>::Process(SyncInput::LocalTransientError(h)));
    }
}

/// Whether `input` is what the core processes for `msg`, which changes no state.
pub open spec fn brings<P>(msg: Msg<P>, input: SyncInput<P>) -> bool {
    match input {
        SyncInput::SendStatusUpdate => msg is Tick || msg matches Msg::NetworkEvent(
            NetworkEvent::PeerSubscribed(_, Channel::Sync),
        ),
        SyncInput::Status(p, s) => msg matches Msg::NetworkEvent(NetworkEvent::Status(q, t)) && p == q
            && s == t,
        SyncInput::Decided(h) => msg matches Msg::Decided(k) && h == k,
        SyncInput::StartedHeight(h, b) => msg matches Msg::StartedHeight(k, c) && h == k && b == c,
        SyncInput::PeerFault(p, h) => msg matches Msg::PeerFault(q, k, _) && p == q && h == k,
        _ => false,
    }
}

/// The core processes what a message brings: that it is time for a status update,
/// as it is when a peer subscribes to the channel of sync, the status of a peer,
/// what consensus started or decided, and the fault of a peer. No state changes.
pub proof fn law_core_gets_what_is_brought<P: Ident>(
    state: &mut State<P>,
    params: &Params,
    config: &SyncConfig,
    msg: Msg<P>,
    r: Vec<SyncAction<P>>,
    input: SyncInput<P>,
)
    requires
        call_ensures(State::<P>::handle_msg, (state, params, config, msg), r),
        brings(msg, input),
    ensures
        only_input(r@, input),
        final(state)@ == old(state)@,
        !(msg is StartedHeight) && !(msg is PeerFault) ==> r@.len() == 1,
{
    if let SyncInput::StartedHeight(h, b) = input {
        let i = if b {
            2int
        } else {
            0
        };
        assert(r@[i] == SyncAction::Process(input));
    } else if let SyncInput::PeerFault(p, h) = input {
        assert(r@[r@.len() - 1] == SyncAction::Process(input));
    } else {
        assert(r@[0] == SyncAction::Process(input));
    }
}

/// When consensus starts a height, the values that are kept for it are handed over
/// after the core has learnt of it; when it starts it over, everything kept is
/// dropped first.
pub proof fn law_kept_values_follow_the_height<P: Ident>(
    state: &mut State<P>,
    params: &Params,
    config: &SyncConfig,
    height: u64,
    is_restart: bool,
    r: Vec<SyncAction<P>>,
)
    requires
        call_ensures(
            State::<P>::handle_msg,
            (state, params, config, Msg::StartedHeight(height, is_restart)),
            r,
        ),
    ensures
        ({
            let n = r@.len() as int;
            &&& n >= 3
            &&& r@[n - 3] == SyncAction::<P>::Process(SyncInput::StartedHeight(height, is_restart))
            &&& r@[n - 2] == SyncAction::<P>::QueueForward(height)
            &&& r@[n - 1] == SyncAction::<P>::UpdateQueueMetrics
            &&& is_restart ==> n == 5 && r@[0] == SyncAction::<P>::QueueClear && r@[1]
                == SyncAction::<P>::UpdateQueueMetrics
            &&& !is_restart ==> n == 3
        }),
{
}

/// When a peer is at fault, what the request for that height brought is dropped,
/// where there is one, before the core learns of it.
pub proof fn law_values_at_fault_are_dropped<P: Ident>(
    state: &mut State<P>,
    params: &Params,
    config: &SyncConfig,
    peer: PeerId,
    height: u64,
    request: Option<RequestId>,
    r: Vec<SyncAction<P>>,
)
    requires
        call_ensures(
            State::<P>::handle_msg,
            (state, params, config, Msg::PeerFault(peer, height, request)),
            r,
        ),
    ensures
        r@.last() == SyncAction::<P>::Process(SyncInput::PeerFault(peer, height)),
        request matches Some(id) ==> r@.len() == 2 && r@[0] == SyncAction::<P>::QueueDropRequest(id),
        request is None ==> r@.len() == 1,
{
}

/// What concerns consensus alone leads to nothing here.
pub proof fn law_consensus_events_are_not_for_sync<P: Ident>(
    state: &mut State<P>,
    params: &Params,
    config: &SyncConfig,
    event: NetworkEvent<P>,
    r: Vec<SyncAction<P>>,
)
    requires
        call_ensures(State::<P>::handle_msg, (state, params, config, Msg::NetworkEvent(event)), r),
        match event {
            NetworkEvent::PeerSubscribed(_, channel) => channel != Channel::Sync,
            NetworkEvent::PeerDisconnected(_) => false,
            NetworkEvent::Status(_, _) => false,
            NetworkEvent::SyncRequest(_, _, _) => false,
            NetworkEvent::SyncResponse(_, _, _) => false,
            NetworkEvent::SyncRequestFailed(_, _, _) => false,
            _ => true,
        },
    ensures
        r@.len() == 0,
        final(state)@ == old(state)@,
{
}

/// The decided values that the application gives for a request of a peer are
/// processed where the request is still pending: from the first on, as many as fit
/// into a response. Otherwise nothing is done.
pub proof fn law_decided_values_are_processed<P: Ident>(
    state: &mut State<P>,
    params: &Params,
    config: &SyncConfig,
    id: RequestId,
    range: P,
    values: Vec<P>,
    sizes: Vec<Option<u64>>,
    r: Vec<SyncAction<P>>,
)
    requires
        call_ensures(
            State::<P>::handle_msg,
            (state, params, config, Msg::GotDecidedValues(id, range, values, sizes)),
            r,
        ),
        values@.len() == sizes@.len(),
    ensures
        final(state)@ == old(state)@,
        !old(state)@.inbound.contains_key(id) ==> r@.len() == 0,
        old(state)@.inbound.contains_key(id) ==> {
            &&& r@.len() == 1
            &&& r@[0] matches SyncAction::Process(SyncInput::GotDecidedValues(i, g, kept))
            &&& i == id
            &&& g == range
            &&& kept@.is_prefix_of(values@)
            &&& size_sum(sizes@, kept@.len() as int) <= config.max_response_size
            &&& forall|k: int| 0 <= k < kept@.len() ==> (#[trigger] sizes@[k]) is Some
            &&& kept@.len() < sizes@.len() ==> (sizes@[kept@.len() as int] matches Some(n) ==> size_sum(
                sizes@,
                kept@.len() as int,
            ) + n > config.max_response_size)
        },
{
}

/// The size of the first values is what they add up to.
pub proof fn law_sizes_add_up(sizes: Seq<Option<u64>>, n: int)
    requires
        0 <= n < sizes.len(),
    ensures
        size_sum(sizes, 0) == 0,
        sizes[n] matches Some(s) ==> size_sum(sizes, n + 1) == size_sum(sizes, n) + s,
{
}

/// Truncation keeps the first values, as many as fit with known sizes, and would
/// keep the next one if that fitted too.
pub proof fn law_truncation_keeps_what_fits<T>(
    values: &mut Vec<T>,
    sizes: Vec<Option<u64>>,
    max: u64,
)
    requires
        call_ensures(truncate_values_to_size_limit::<T>, (values, &sizes, max), ()),
        old(values)@.len() == sizes@.len(),
    ensures
        final(values)@.is_prefix_of(old(values)@),
        ({
            let n = final(values)@.len() as int;
            &&& size_sum(sizes@, n) <= max
            &&& forall|k: int| 0 <= k < n ==> (#[trigger] sizes@[k]) is Some
            &&& n < sizes@.len() ==> (sizes@[n] matches Some(s) ==> size_sum(sizes@, n) + s > max)
        }),
{
}

/// A local failure is counted, and counted for its height, where it is the first
/// or one more than before, and the value is requested again after the delay that
/// belongs to that many.
pub proof fn law_local_failure_is_retried<P: Ident>(
    state: &mut State<P>,
    params: &Params,
    config: &SyncConfig,
    height: u64,
    r: Vec<SyncAction<P>>,
    delay: u64,
)
    requires
        call_ensures(
            State::<P>::handle_msg,
            (state, params, config, Msg::LocalTransientError(height)),
            r,
        ),
        call_ensures(
            local_transient_retry_delay,
            (final(state)@.attempts[height],),
            delay,
        ),
    ensures
        ({
            let before = old(state)@.attempts;
            let after = final(state)@.attempts;
            &&& after.contains_key(height)
            &&& !before.contains_key(height) ==> after[height] == 1
            &&& before.contains_key(height) && before[height] < u32::MAX ==> after[height]
                == before[height] + 1
            &&& before.contains_key(height) && before[height] == u32::MAX ==> after[height] == u32::MAX
            &&& after.remove(height) =~= before.remove(height)
        }),
        r@.len() == 2,
        r@[0] == SyncAction::<P>::CountLocalTransientError,
        r@[1] == SyncAction::<P>::StartTimer(SyncTimeout::Retry(height), delay),
        final(state)@.inflight == old(state)@.inflight,
        final(state)@.inbound == old(state)@.inbound,
{
    let attempt = final(state)@.attempts[height] as nat;
    lemma_retry_delay_values(attempt);
}

/// The delay before a retry is a tenth of a second for the first, doubles with
/// each, and is never more than a second.
pub proof fn law_delay_doubles(attempt: u32, next: u32, delay: u64, longer: u64)
    requires
        next == attempt + 1,
        call_ensures(local_transient_retry_delay, (attempt,), delay),
        call_ensures(local_transient_retry_delay, (next,), longer),
    ensures
        attempt <= 1 ==> delay == 100,
        attempt >= 1 ==> longer == if 2 * delay < 1000 {
            2 * delay
        } else {
            1000
        },
{
    lemma_retry_delay_values(attempt as nat);
    lemma_retry_delay_values(next as nat);
}

proof fn lemma_drop_steps<P>(ids: Seq<RequestId>, id: RequestId)
    ensures
        ({
            let a = drop_inbound_steps::<P>(ids);
            &&& a.contains(SyncAction::CancelTimer(SyncTimeout::InboundRequest(id))) == ids.contains(id)
            &&& a.contains(SyncAction::NetworkCancelInboundRequest(id)) == ids.contains(id)
            &&& a.contains(
                SyncAction::CountInboundFailure(id, InboundFailureReason::RequesterDisconnected),
            ) == ids.contains(id)
            &&& forall|i: int|
                0 <= i < a.len() ==> !((#[trigger] a[i]) is Process) && !(a[i] matches SyncAction::CancelTimer(
                    SyncTimeout::Request(_),
                ))
            &&& a.len() == 3 * ids.len()
        }),
    decreases ids.len(),
{
    let a = drop_inbound_steps::<P>(ids);
    if ids.len() > 0 {
        let rest = ids.drop_last();
        let last = ids.last();
        lemma_drop_steps::<P>(rest, id);
        let b = drop_inbound_steps::<P>(rest);
        let n = b.len() as int;
        let x = SyncAction::<P>::CancelTimer(SyncTimeout::InboundRequest(id));
        let y = SyncAction::<P>::NetworkCancelInboundRequest(id);
        let z = SyncAction::<P>::CountInboundFailure(
            id,
            InboundFailureReason::RequesterDisconnected,
        );
        assert(a[n] == SyncAction::<P>::CancelTimer(SyncTimeout::InboundRequest(last)));
        assert(a[n + 1] == SyncAction::<P>::NetworkCancelInboundRequest(last));
        assert(a[n + 2] == SyncAction::<P>::CountInboundFailure(
            last,
            InboundFailureReason::RequesterDisconnected,
        ));
        assert(forall|i: int| 0 <= i < n ==> #[trigger] a[i] == b[i]);
        assert forall|w: SyncAction<P>| #[trigger] b.contains(w) implies a.contains(w) by {
            let i = choose|i: int| 0 <= i < b.len() && b[i] == w;
            assert(a[i] == w);
        }
        assert forall|w: SyncAction<P>| #[trigger] a.contains(w) implies b.contains(w) || w == a[n]
            || w == a[n + 1] || w == a[n + 2] by {
            let i = choose|i: int| 0 <= i < a.len() && a[i] == w;
            if i < n {
                assert(b[i] == w);
            }
        }
        assert(ids.contains(id) == (rest.contains(id) || last == id)) by {
            assert(rest.push(last) =~= ids);
            crate::votekeeper::keeper::lemma_push_contains(rest, last, id);
        }
        if last == id {
            assert(a.contains(a[n]));
            assert(a.contains(a[n + 1]));
            assert(a.contains(a[n + 2]));
        }
    }
}

/// When a peer disconnects, nothing that was sent to it is waited for, and the
/// timers of that are cancelled; nothing that it asked for is pending, is dropped
/// from the network and counted as that. What concerns other peers stays. The core
/// learns of it last, and of nothing else.
pub proof fn law_disconnected_peer_is_let_go<P: Ident>(
    state: &mut State<P>,
    params: &Params,
    config: &SyncConfig,
    peer: PeerId,
    r: Vec<SyncAction<P>>,
    id: RequestId,
)
    requires
        call_ensures(
            State::<P>::handle_msg,
            (state, params, config, Msg::NetworkEvent(NetworkEvent::PeerDisconnected(peer))),
            r,
        ),
        old(state).wf(),
    ensures
        ({
            let s = old(state)@;
            let t = final(state)@;
            let sent = s.inflight.contains_key(id) && s.inflight[id].peer_id == peer;
            let asked = s.inbound.contains_key(id) && s.inbound[id] == peer;
            &&& t.inflight.contains_key(id) == (s.inflight.contains_key(id) && !sent)
            &&& t.inbound.contains_key(id) == (s.inbound.contains_key(id) && !asked)
            &&& t.inflight.contains_key(id) ==> t.inflight[id] == s.inflight[id]
            &&& t.inbound.contains_key(id) ==> t.inbound[id] == s.inbound[id]
            &&& t.attempts == s.attempts
            &&& r@.contains(SyncAction::CancelTimer(SyncTimeout::Request(id))) == sent
            &&& r@.contains(SyncAction::CancelTimer(SyncTimeout::InboundRequest(id))) == asked
            &&& r@.contains(SyncAction::NetworkCancelInboundRequest(id)) == asked
            &&& r@.contains(
                SyncAction::CountInboundFailure(id, InboundFailureReason::RequesterDisconnected),
            ) == asked
        }),
        r@.len() > 0,
        r@.last() == SyncAction::<P>::Process(SyncInput::PeerDisconnected(peer)),
        only_input(r@, SyncInput::PeerDisconnected(peer)),
{
    let sent = sent_to(old(state).inflight.entries@, peer);
    let asked = sent_by(old(state).inbound.entries@, peer);
    let cancel = |x: RequestId| SyncAction::<P>::CancelTimer(SyncTimeout::Request(x));
    let a = sent.map_values(cancel);
    let b = drop_inbound_steps::<P>(asked);
    let n = a.len() as int;
    let m = n + b.len();
    lemma_sent_to(old(state).inflight, peer);
    lemma_sent_by(old(state).inbound, peer);
    lemma_drop_steps::<P>(asked, id);
    assert(sent.contains(id) == (old(state)@.inflight.contains_key(id) && old(
        state,
    )@.inflight[id].peer_id == peer));
    assert(asked.contains(id) == (old(state)@.inbound.contains_key(id) && old(state)@.inbound[id]
        == peer));
    assert(r@ == a + b + seq![SyncAction::<P>::Process(SyncInput::PeerDisconnected(peer))]);
    assert(forall|i: int| 0 <= i < n ==> #[trigger] r@[i] == cancel(sent[i]));
    assert(forall|i: int| n <= i < m ==> #[trigger] r@[i] == b[i - n]);
    assert(r@.len() == m + 1);
    let last = r@[m];
    assert(last == SyncAction::<P>::Process(SyncInput::PeerDisconnected(peer)));
    assert forall|j: int| 0 <= j < r@.len() && j != m implies !((#[trigger] r@[j]) is Process) by {
        if j >= n {
            assert(r@[j] == b[j - n]);
        }
    }
    assert forall|w: SyncAction<P>| #[trigger] b.contains(w) implies r@.contains(w) by {
        let i = choose|i: int| 0 <= i < b.len() && b[i] == w;
        assert(r@[n + i] == w);
    }
    assert forall|w: SyncAction<P>| #[trigger] r@.contains(w) implies b.contains(w) || w == last || (
    exists|i: int| 0 <= i < n && w == cancel(#[trigger] sent[i])) by {
        let i = choose|i: int| 0 <= i < r@.len() && r@[i] == w;
        if i < n {
            assert(w == cancel(sent[i]));
        } else if i < m {
            assert(b[i - n] == w);
        }
    }
    let x = SyncAction::<P>::CancelTimer(SyncTimeout::Request(id));
    if sent.contains(id) {
        let i = choose|i: int| 0 <= i < sent.len() && sent[i] == id;
        assert(r@[i] == x);
    }
    if r@.contains(x) {
        if b.contains(x) {
            let i = choose|i: int| 0 <= i < b.len() && b[i] == x;
            assert(b[i] == x);
        }
    }
}

/// When consensus has decided a height, the failures at it and below are
/// forgotten, the timers of these retries, and no others, are cancelled, and peers
/// are told the status exactly where that is done eagerly. Nothing else changes.
pub proof fn law_decision_settles_failures<P: Ident>(
    state: &mut State<P>,
    height: u64,
    r: Vec<SyncAction<P>>,
    h: u64,
)
    requires
        call_ensures(State::<P>::decided, (state, height), r),
        old(state).wf(),
    ensures
        ({
            let s = old(state)@;
            let t = final(state)@;
            &&& t.attempts.contains_key(h) == (s.attempts.contains_key(h) && h > height)
            &&& t.attempts.contains_key(h) ==> t.attempts[h] == s.attempts[h]
            &&& t.inflight == s.inflight && t.inbound == s.inbound && t.mode == s.mode
            &&& r@.contains(SyncAction::CancelTimer(SyncTimeout::Retry(h))) == (s.attempts.contains_key(
                h,
            ) && h <= height)
            &&& s.mode == StatusUpdateMode::Eager ==> only_input(r@, SyncInput::SendStatusUpdate)
                && r@.last() is Process
            &&& s.mode != StatusUpdateMode::Eager ==> no_input(r@)
        }),
{
    let entries = old(state).local_transient_attempts.entries@;
    let heights = heights_up_to(entries, height);
    let cancel = |x: u64| SyncAction::<P>::CancelTimer(SyncTimeout::Retry(x));
    let a = heights.map_values(cancel);
    let n = a.len() as int;
    lemma_heights_up_to(old(state).local_transient_attempts, height);
    assert(heights.contains(h) == (old(state)@.attempts.contains_key(h) && h <= height));
    assert(forall|i: int| 0 <= i < n ==> #[trigger] r@[i] == cancel(heights[i]));
    let x = SyncAction::<P>::CancelTimer(SyncTimeout::Retry(h));
    if heights.contains(h) {
        let i = choose|i: int| 0 <= i < heights.len() && heights[i] == h;
        assert(r@[i] == x);
    }
    if r@.contains(x) {
        let i = choose|i: int| 0 <= i < r@.len() && r@[i] == x;
        assert(i < n);
        assert(cancel(heights[i]) == x);
        assert(heights.contains(heights[i]));
    }
    if old(state)@.mode == StatusUpdateMode::Eager {
        assert(r@[n] == SyncAction::<P>::Process(SyncInput::SendStatusUpdate));
    }
}

/// What the core asks for is done: a status is broadcast, a request is sent to its
/// peer, the application is asked for decided values, and a request is cancelled.
/// A response is sent for its request, whose timer is cancelled and which is no
/// longer pending. Nothing else changes.
pub proof fn law_effects_are_carried_out<P: Ident>(
    state: &mut State<P>,
    height: u64,
    effect: SyncEffect<P>,
    r: Vec<SyncAction<P>>,
)
    requires
        call_ensures(State::<P>::handle_effect, (state, height, effect), r),
        !(effect is ProcessValueResponse),
    ensures
        r@.len() > 0,
        match effect {
            SyncEffect::BroadcastStatus(h) => r@.last() == SyncAction::<P>::BroadcastStatus(h),
            SyncEffect::SendValueRequest(peer, p) => r@.last() == SyncAction::NetworkRequest(peer, p),
            SyncEffect::GetDecidedValues(id, p) => r@.last() == SyncAction::HostGetDecidedValues(id, p),
            SyncEffect::CancelValueRequest(id) => r@.last() == SyncAction::<P>::NetworkCancelRequest(id),
            SyncEffect::SendValueResponse(id, p) => r@.last() == SyncAction::NetworkResponse(id, p)
                && r@.len() == 2 && r@[0] == SyncAction::<P>::CancelTimer(
                SyncTimeout::InboundRequest(id),
            ) && !final(state)@.inbound.contains_key(id),
            _ => true,
        },
        effect is SendValueResponse || r@.len() == 1,
        effect is SendValueResponse || final(state)@.inbound == old(state)@.inbound,
        forall|other: RequestId|
            !(effect matches SyncEffect::SendValueResponse(id, _) && id == other)
                ==> #[trigger] final(state)@.inbound.contains_key(other) == old(
                state,
            )@.inbound.contains_key(other),
        final(state)@.inflight == old(state)@.inflight,
        final(state)@.attempts == old(state)@.attempts,
{
}

/// Of the values of a response, each goes where its height says: to consensus at
/// its current height, to those that are kept at a later one, with the request
/// that brought it, and nowhere at an earlier one. The order stays. At the end the
/// metrics of what is kept are updated.
pub proof fn law_values_go_by_height<P: Ident>(
    height: u64,
    id: RequestId,
    values: Vec<(u64, P)>,
    more: Vec<(u64, P)>,
    h: u64,
    value: P,
    r: Vec<SyncAction<P>>,
    longer: Vec<SyncAction<P>>,
)
    requires
        call_ensures(process_value_response::<P>, (height, id, values), r),
        call_ensures(process_value_response::<P>, (height, id, more), longer),
        more@ == values@.push((h, value)),
    ensures
        r@.len() > 0 && r@.last() == SyncAction::<P>::UpdateQueueMetrics,
        values@.len() == 0 ==> r@.len() == 1,
        longer@.len() > 0 && longer@.last() == SyncAction::<P>::UpdateQueueMetrics,
        h < height ==> longer@ =~= r@,
        h == height ==> longer@.drop_last() =~= r@.drop_last().push(
            SyncAction::ForwardToConsensus(value),
        ),
        h > height ==> longer@.drop_last() =~= r@.drop_last().push(
            SyncAction::QueuePush(h, id, value),
        ),
{
    assert(more@.drop_last() =~= values@);
    assert(more@.last() == (h, value));
    let a = value_actions(height, id, values@);
    let b = value_actions(height, id, more@);
    assert(r@.drop_last() =~= a);
    assert(longer@.drop_last() =~= b);
}

/// The values that the core wants processed go where their heights say.
pub proof fn law_response_values_are_processed<P: Ident>(
    state: &mut State<P>,
    height: u64,
    peer: PeerId,
    id: RequestId,
    values: Vec<(u64, P)>,
    r: Vec<SyncAction<P>>,
    direct: Vec<SyncAction<P>>,
)
    requires
        call_ensures(
            State::<P>::handle_effect,
            (state, height, SyncEffect::ProcessValueResponse(peer, id, values)),
            r,
        ),
        call_ensures(process_value_response::<P>, (height, id, values), direct),
    ensures
        r@ == direct@,
        final(state)@ == old(state)@,
{
}

/// A request that was sent is waited for, with its peer and content, as long as a
/// request may take; one that could not be sent is not.
pub proof fn law_sent_request_is_awaited<P: Ident>(
    state: &mut State<P>,
    params: &Params,
    sent: Option<RequestId>,
    peer_id: PeerId,
    request: P,
    r: Vec<SyncAction<P>>,
)
    requires
        call_ensures(State::<P>::request_sent, (state, params, sent, peer_id, request), r),
    ensures
        sent is None ==> r@.len() == 0 && final(state)@ == old(state)@,
        sent matches Some(id) ==> {
            &&& final(state)@.inflight.contains_key(id)
            &&& final(state)@.inflight[id].peer_id == peer_id
            &&& final(state)@.inflight[id].request == request
            &&& final(state)@.inflight.remove(id) =~= old(state)@.inflight.remove(id)
            &&& final(state)@.inbound == old(state)@.inbound
            &&& r@.len() == 1
            &&& r@[0] == SyncAction::<P>::StartTimer(
                SyncTimeout::Request(id),
                params.request_timeout,
            )
        },
{
}

/// A request that was sent is settled by its response, and by nothing after that.
pub proof fn law_request_is_settled_by_its_response<P: Ident>(
    state: &mut State<P>,
    later: &mut State<P>,
    params: &Params,
    config: &SyncConfig,
    id: RequestId,
    peer: PeerId,
    response: Option<P>,
    second: Msg<P>,
    r: Vec<SyncAction<P>>,
    again: Vec<SyncAction<P>>,
)
    requires
        call_ensures(
            State::<P>::handle_msg,
            (state, params, config, Msg::NetworkEvent(NetworkEvent::SyncResponse(id, peer, response))),
            r,
        ),
        old(later)@ == final(state)@,
        call_ensures(State::<P>::handle_msg, (later, params, config, second), again),
        match second {
            Msg::NetworkEvent(NetworkEvent::SyncResponse(i, _, _)) => i == id,
            Msg::NetworkEvent(NetworkEvent::SyncRequestFailed(i, _, _)) => i == id,
            Msg::TimeoutElapsed(Some(SyncTimeout::Request(i))) => i == id,
            _ => false,
        },
    ensures
        no_input(again@),
        final(later)@ == old(later)@,
{
}

/// Taking out the requests of a peer gives exactly these, and leaves the others.
pub proof fn law_drained_requests(
    inbound: &mut OrdMap<RequestId, PeerId>,
    peer: PeerId,
    r: Vec<RequestId>,
    id: RequestId,
)
    requires
        call_ensures(drain_inbound_requests_for_peer, (inbound, peer), r),
    ensures
        r@.contains(id) == (old(inbound)@.contains_key(id) && old(inbound)@[id] == peer),
        final(inbound)@.contains_key(id) == (old(inbound)@.contains_key(id) && old(inbound)@[id]
            != peer),
        final(inbound)@.contains_key(id) ==> final(inbound)@[id] == old(inbound)@[id],
{
}

/// Requests may start as many heights ahead as are asked for in parallel, each for
/// a batch, at least one of each, and there is room for twice as many values.
pub proof fn law_room_for_read_ahead(
    config: SyncConfig,
    window: usize,
    batch: usize,
    capacity: usize,
    parallel: int,
)
    requires
        call_ensures(SyncConfig::read_ahead_window, (&config,), window),
        call_ensures(SyncConfig::effective_batch_size, (&config,), batch),
        call_ensures(sync_queue_capacity, (&config,), capacity),
        parallel == if config.parallel_requests == 0 {
            1
        } else {
            config.parallel_requests as int
        },
    ensures
        batch == if config.batch_size == 0 {
            1
        } else {
            config.batch_size
        },
        window == if parallel * batch <= usize::MAX {
            parallel * batch
        } else {
            usize::MAX as int
        },
        capacity == if 2 * window <= usize::MAX {
            2 * window
        } else {
            usize::MAX as int
        },
{
}

/// Peers are told the status eagerly exactly where there is no interval.
pub proof fn law_status_is_eager_without_interval<P: Ident>(
    params: Params,
    mode: StatusUpdateMode,
    state: State<P>,
)
    requires
        call_ensures(status_update_mode, (params.status_update_interval,), mode),
        call_ensures(State::<P>::new, (&params,), state),
    ensures
        mode == StatusUpdateMode::Eager <==> params.status_update_interval == 0,
        state@.mode == mode,
        forall|id: RequestId| !state@.inflight.contains_key(id) && !state@.inbound.contains_key(id),
        forall|h: u64| !state@.attempts.contains_key(h),
{
}

} // verus!
