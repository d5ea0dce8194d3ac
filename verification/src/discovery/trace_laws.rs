//! What each event leaves in the trace of discovery.

use vstd::prelude::*;

use crate::discovery::oracle::{
    address_number, adjust_peers, check_request, close_connection, connect_request_peer,
    dial_add_to_queue, dial_clear_done_for_peer, dial_peer, dial_register_done_on,
    handle_closed_connection, handle_connect_request, handle_connect_response, handle_connection,
    handle_failed_bootstrap, handle_failed_connect_request, handle_failed_connection,
    handle_failed_peers_request, handle_new_peer, handle_peers_response,
    handle_successful_bootstrap, make_extension_step, numbers_address, numbers_after,
    peers_request_peer, rate_limiter_new, rate_limiter_remove_peer, record_views,
    repair_outbound_peers, ArgView, DialData, Record, RecordView, Trace, ValueView,
};
use crate::discovery::state::{addresses, AddressView, ConnectionId};
use crate::engine::event::{PeerId, RequestId};
use crate::first_seen::{number_of, with_all_seen, with_seen};
use crate::network::multiaddr::Multiaddr;

verus! {

/// Whether an event at `now` was recorded as `action`: not at all by a trace that is
/// off, else as the last event, behind a tick of the clock where a millisecond or
/// more has passed since the event before.
pub open spec fn is_recorded(
    before: Trace,
    after: Trace,
    now: u64,
    r: Seq<Record>,
    action: Seq<char>,
) -> bool {
    &&& !before.enabled ==> r.len() == 0 && after@ == before@
    &&& before.enabled ==> {
        &&& after.enabled
        &&& after.last_event == Some(now)
        &&& 1 <= r.len() <= 2
        &&& r.last()@.action == action
        &&& (r.len() == 2) == (match before.last_event {
            Some(last) => now - last >= 1_000_000,
            None => false,
        })
        &&& r.len() == 2 ==> r[0]@.action == "clock_tick"@ && r[0]@.args.len() == 1
            && r[0]@.args[0].name == "amount"@ && r[0]@.args[0].value == ValueView::Number(1)
    }
}

/// An argument of the event that was recorded last.
pub open spec fn given(r: Seq<Record>, i: int) -> ArgView {
    r.last()@.args[i]
}

/// How many arguments the event that was recorded last has.
pub open spec fn arity(r: Seq<Record>) -> nat {
    r.last()@.args.len()
}

/// Whether the event that was recorded last ends with its rejection.
pub open spec fn says_rejected(r: Seq<Record>) -> bool {
    r.last()@.args.len() > 0 && r.last()@.args.last().name == "outcome"@ && r.last()@.args.last().value
        == ValueView::Text("rejected"@)
}

/// Whether `v` is the place of `x` among what was seen, counted from one.
pub open spec fn is_place<V>(seen: Seq<V>, x: V, v: ValueView) -> bool {
    v matches ValueView::Number(n) && 1 <= n <= seen.len() && seen[n - 1] == x
}

/// Whether `n` is ten times the place, counted from one, of `x` among what was seen.
pub open spec fn is_tenfold_place<V>(seen: Seq<V>, x: V, n: int) -> bool {
    n % 10 == 0 && 1 <= n / 10 <= seen.len() && seen[n / 10 - 1] == x
}

/// Whether one of `numbers` is that of `x` among what was seen.
pub open spec fn is_numbered(seen: Seq<AddressView>, x: AddressView, numbers: Set<int>) -> bool {
    exists|n: int| #[trigger] numbers.contains(n) && is_tenfold_place(seen, x, n)
}

/// Whether `n` is the number of one of the addresses `listed` among what was seen.
pub open spec fn is_of_listed(seen: Seq<AddressView>, listed: Seq<AddressView>, n: int) -> bool {
    exists|i: int| 0 <= i < listed.len() && is_tenfold_place(seen, #[trigger] listed[i], n)
}

/// Whether `numbers` are those of the addresses `listed` among what was seen.
#[verifier::opaque]
pub open spec fn are_places(seen: Seq<AddressView>, listed: Seq<AddressView>, numbers: Set<int>) -> bool {
    &&& forall|i: int| 0 <= i < listed.len() ==> #[trigger] is_numbered(seen, listed[i], numbers)
    &&& forall|n: int| numbers.contains(n) ==> #[trigger] is_of_listed(seen, listed, n)
}

/// Whether `v` is what is dialed.
pub open spec fn is_dialed(after: Trace, d: DialData, v: ValueView) -> bool {
    v matches ValueView::Dial { peer_id, listen_addrs, retry, is_bootstrap } && retry == d.retry
        && is_bootstrap == d.is_bootstrap && are_places(
        after@.addrs,
        addresses(d.listen_addrs@),
        listen_addrs,
    ) && match d.peer_id {
        Some(p) => is_place(after@.peers, p, ValueView::Number(peer_id)),
        None => peer_id == 0,
    }
}

proof fn lemma_place<V>(seen: Seq<V>, x: V)
    requires
        seen.no_duplicates(),
    ensures
        with_seen(seen, x).no_duplicates(),
        with_seen(seen, x).contains(x),
        1 <= number_of(seen, x) <= with_seen(seen, x).len(),
        with_seen(seen, x)[number_of(seen, x) - 1] == x,
        number_of(with_seen(seen, x), x) == number_of(seen, x),
{
    let after = with_seen(seen, x);
    if !seen.contains(x) {
        assert(after[seen.len() as int] == x);
        assert(after.index_of(x) == seen.len());
    }
}

proof fn lemma_all_seen<V>(seen: Seq<V>, more: Seq<V>)
    requires
        seen.no_duplicates(),
    ensures
        with_all_seen(seen, more).no_duplicates(),
        forall|i: int| 0 <= i < more.len() ==> with_all_seen(seen, more).contains(#[trigger] more[i]),
    decreases more.len(),
{
    if more.len() > 0 {
        let head = more.drop_last();
        lemma_all_seen(seen, head);
        let mid = with_all_seen(seen, head);
        lemma_place(mid, more.last());
        let after = with_seen(mid, more.last());
        assert forall|i: int| 0 <= i < more.len() implies after.contains(#[trigger] more[i]) by {
            if i < more.len() - 1 {
                assert(head[i] == more[i]);
                assert(mid.contains(head[i]));
                let k = choose|k: int| 0 <= k < mid.len() && mid[k] == head[i];
                assert(after[k] == more[i]);
            }
        }
    }
}

proof fn lemma_tenfold(seen: Seq<AddressView>, listed: Seq<AddressView>, i: int)
    requires
        seen.no_duplicates(),
        0 <= i < listed.len(),
    ensures
        is_tenfold_place(
            with_all_seen(seen, listed),
            listed[i],
            address_number(with_all_seen(seen, listed), listed[i]),
        ),
{
    let after = with_all_seen(seen, listed);
    lemma_all_seen(seen, listed);
    assert(after.contains(listed[i]));
    lemma_place(after, listed[i]);
    assert(with_seen(after, listed[i]) == after);
    let n = number_of(after, listed[i]);
    assert(address_number(after, listed[i]) == n * 10);
    assert((n * 10) % 10 == 0 && (n * 10) / 10 == n);
}

proof fn lemma_places(seen: Seq<AddressView>, listed: Seq<AddressView>)
    requires
        seen.no_duplicates(),
    ensures
        are_places(with_all_seen(seen, listed), listed, numbers_after(seen, listed)),
{
    let after = with_all_seen(seen, listed);
    let numbers = numbers_after(seen, listed);
    reveal(are_places);
    assert forall|i: int| 0 <= i < listed.len() implies #[trigger] is_numbered(after, listed[i], numbers) by {
        lemma_tenfold(seen, listed, i);
        let n = address_number(after, listed[i]);
        assert(numbers_address(seen, listed, n));
        assert(numbers.contains(n));
    }
    assert forall|n: int| numbers.contains(n) implies #[trigger] is_of_listed(after, listed, n) by {
        assert(numbers_address(seen, listed, n));
        let i = choose|i: int|
            0 <= i < listed.len() && n == address_number(after, #[trigger] listed[i]);
        lemma_tenfold(seen, listed, i);
        assert(is_tenfold_place(after, listed[i], n));
    }
}

proof fn lemma_records(r: Seq<Record>)
    ensures
        record_views(r).len() == r.len(),
        forall|i: int| 0 <= i < r.len() ==> (#[trigger] r[i])@ == record_views(r)[i],
        r.len() > 0 ==> r.last()@ == record_views(r).last(),
{
}

/// A successful bootstrap query is recorded.
pub proof fn law_handle_successful_bootstrap_is_recorded(
    trace: &mut Trace,
    now: u64,
    r: Vec<Record>,
)
    requires
        old(trace).wf(),
        call_ensures(handle_successful_bootstrap, (trace, now), r),
    ensures
        is_recorded(*old(trace), *final(trace), now, r@, "handle_successful_bootstrap"@),
        old(trace).enabled ==> arity(r@) == 0,
{
    lemma_records(r@);
}

/// A failed bootstrap query is recorded.
pub proof fn law_handle_failed_bootstrap_is_recorded(
    trace: &mut Trace,
    now: u64,
    r: Vec<Record>,
)
    requires
        old(trace).wf(),
        call_ensures(handle_failed_bootstrap, (trace, now), r),
    ensures
        is_recorded(*old(trace), *final(trace), now, r@, "handle_failed_bootstrap"@),
        old(trace).enabled ==> arity(r@) == 0,
{
    lemma_records(r@);
}

/// An extension of the set of peers is recorded.
pub proof fn law_make_extension_step_is_recorded(
    trace: &mut Trace,
    now: u64,
    r: Vec<Record>,
)
    requires
        old(trace).wf(),
        call_ensures(make_extension_step, (trace, now), r),
    ensures
        is_recorded(*old(trace), *final(trace), now, r@, "make_extension_step"@),
        old(trace).enabled ==> arity(r@) == 0,
{
    lemma_records(r@);
}

/// A request is recorded with the peer that makes it.
pub proof fn law_check_request_is_recorded(
    trace: &mut Trace,
    now: u64,
    peer: PeerId,
    r: Vec<Record>,
)
    requires
        old(trace).wf(),
        call_ensures(check_request, (trace, now, &peer), r),
    ensures
        is_recorded(*old(trace), *final(trace), now, r@, "check_request"@),
        old(trace).enabled ==> arity(r@) == 1,
        old(trace).enabled ==> given(r@, 0).name == "peer"@,
        old(trace).enabled ==> is_place(final(trace)@.peers, peer, given(r@, 0).value),
{
    lemma_place(old(trace)@.peers, peer);
    lemma_records(r@);
}

/// A peer that the rate limiter forgets is recorded.
pub proof fn law_rate_limiter_remove_peer_is_recorded(
    trace: &mut Trace,
    now: u64,
    peer: PeerId,
    r: Vec<Record>,
)
    requires
        old(trace).wf(),
        call_ensures(rate_limiter_remove_peer, (trace, now, &peer), r),
    ensures
        is_recorded(*old(trace), *final(trace), now, r@, "DiscoveryRateLimiterremove_peer"@),
        old(trace).enabled ==> arity(r@) == 1,
        old(trace).enabled ==> given(r@, 0).name == "peer_id"@,
        old(trace).enabled ==> is_place(final(trace)@.peers, peer, given(r@, 0).value),
{
    lemma_place(old(trace)@.peers, peer);
    lemma_records(r@);
}

/// A request to connect is recorded with the peer that makes it.
pub proof fn law_handle_connect_request_is_recorded(
    trace: &mut Trace,
    now: u64,
    peer: PeerId,
    r: Vec<Record>,
)
    requires
        old(trace).wf(),
        call_ensures(handle_connect_request, (trace, now, &peer), r),
    ensures
        is_recorded(*old(trace), *final(trace), now, r@, "handle_connect_request"@),
        old(trace).enabled ==> arity(r@) == 1,
        old(trace).enabled ==> given(r@, 0).name == "peer"@,
        old(trace).enabled ==> is_place(final(trace)@.peers, peer, given(r@, 0).value),
{
    lemma_place(old(trace)@.peers, peer);
    lemma_records(r@);
}

/// A repair of the outbound peers is recorded with its peer.
pub proof fn law_repair_outbound_peers_is_recorded(
    trace: &mut Trace,
    now: u64,
    peer: PeerId,
    r: Vec<Record>,
)
    requires
        old(trace).wf(),
        call_ensures(repair_outbound_peers, (trace, now, &peer), r),
    ensures
        is_recorded(*old(trace), *final(trace), now, r@, "repair_outbound_peers"@),
        old(trace).enabled ==> arity(r@) == 1,
        old(trace).enabled ==> given(r@, 0).name == "peer"@,
        old(trace).enabled ==> is_place(final(trace)@.peers, peer, given(r@, 0).value),
{
    lemma_place(old(trace)@.peers, peer);
    lemma_records(r@);
}

/// An adjustment of peers is recorded with its candidate.
pub proof fn law_adjust_peers_is_recorded(
    trace: &mut Trace,
    now: u64,
    candidate: Option<&PeerId>,
    r: Vec<Record>,
)
    requires
        old(trace).wf(),
        call_ensures(adjust_peers, (trace, now, candidate), r),
    ensures
        is_recorded(*old(trace), *final(trace), now, r@, "adjust_peers"@),
        old(trace).enabled ==> arity(r@) == 1,
        old(trace).enabled ==> given(r@, 0).name == "candidate"@,
        old(trace).enabled ==> match candidate {
            Some(x) => is_place(final(trace)@.peers, *x, given(r@, 0).value),
            None => given(r@, 0).value == ValueView::Number(0),
        },
{
    if let Some(x) = candidate {
        lemma_place(old(trace)@.peers, *x);
    }
    lemma_records(r@);
}

/// A response with peers is recorded with its request.
pub proof fn law_handle_peers_response_is_recorded(
    trace: &mut Trace,
    now: u64,
    request_id: RequestId,
    r: Vec<Record>,
)
    requires
        old(trace).wf(),
        call_ensures(handle_peers_response, (trace, now, &request_id), r),
    ensures
        is_recorded(*old(trace), *final(trace), now, r@, "handle_peers_response"@),
        old(trace).enabled ==> arity(r@) == 1,
        old(trace).enabled ==> given(r@, 0).name == "request_id"@,
        old(trace).enabled ==> is_place(final(trace)@.requests, request_id, given(r@, 0).value),
{
    lemma_place(old(trace)@.requests, request_id);
    lemma_records(r@);
}

/// A failed request for peers is recorded.
pub proof fn law_handle_failed_peers_request_is_recorded(
    trace: &mut Trace,
    now: u64,
    request_id: RequestId,
    r: Vec<Record>,
)
    requires
        old(trace).wf(),
        call_ensures(handle_failed_peers_request, (trace, now, &request_id), r),
    ensures
        is_recorded(*old(trace), *final(trace), now, r@, "handle_failed_peers_request"@),
        old(trace).enabled ==> arity(r@) == 1,
        old(trace).enabled ==> given(r@, 0).name == "request_id"@,
        old(trace).enabled ==> is_place(final(trace)@.requests, request_id, given(r@, 0).value),
{
    lemma_place(old(trace)@.requests, request_id);
    lemma_records(r@);
}

/// A response to a request to connect is recorded with whether it accepts.
pub proof fn law_handle_connect_response_is_recorded(
    trace: &mut Trace,
    now: u64,
    request_id: RequestId,
    accepted: bool,
    r: Vec<Record>,
)
    requires
        old(trace).wf(),
        call_ensures(handle_connect_response, (trace, now, &request_id, accepted), r),
    ensures
        is_recorded(*old(trace), *final(trace), now, r@, "handle_connect_response"@),
        old(trace).enabled ==> arity(r@) == 2,
        old(trace).enabled ==> given(r@, 0).name == "request_id"@,
        old(trace).enabled ==> is_place(final(trace)@.requests, request_id, given(r@, 0).value),
        old(trace).enabled ==> given(r@, 1).name == "accepted"@,
        old(trace).enabled ==> given(r@, 1).value == ValueView::Flag(accepted),
{
    lemma_place(old(trace)@.requests, request_id);
    lemma_records(r@);
}

/// A failed request to connect is recorded.
pub proof fn law_handle_failed_connect_request_is_recorded(
    trace: &mut Trace,
    now: u64,
    request_id: RequestId,
    r: Vec<Record>,
)
    requires
        old(trace).wf(),
        call_ensures(handle_failed_connect_request, (trace, now, &request_id), r),
    ensures
        is_recorded(*old(trace), *final(trace), now, r@, "handle_failed_connect_request"@),
        old(trace).enabled ==> arity(r@) == 1,
        old(trace).enabled ==> given(r@, 0).name == "request_id"@,
        old(trace).enabled ==> is_place(final(trace)@.requests, request_id, given(r@, 0).value),
{
    lemma_place(old(trace)@.requests, request_id);
    lemma_records(r@);
}

/// A connection is recorded with its peer and its direction.
pub proof fn law_handle_connection_is_recorded(
    trace: &mut Trace,
    now: u64,
    peer: PeerId,
    connection: ConnectionId,
    inbound: bool,
    r: Vec<Record>,
)
    requires
        old(trace).wf(),
        call_ensures(handle_connection, (trace, now, &peer, connection, inbound), r),
    ensures
        is_recorded(*old(trace), *final(trace), now, r@, "handle_connection"@),
        old(trace).enabled ==> arity(r@) == 3,
        old(trace).enabled ==> given(r@, 0).name == "peer_id"@,
        old(trace).enabled ==> is_place(final(trace)@.peers, peer, given(r@, 0).value),
        old(trace).enabled ==> given(r@, 1).name == "connection_id"@,
        old(trace).enabled ==> is_place(final(trace)@.connections, connection, given(r@, 1).value),
        old(trace).enabled ==> given(r@, 2).name == "inbound"@,
        old(trace).enabled ==> given(r@, 2).value == ValueView::Flag(inbound),
{
    lemma_place(old(trace)@.peers, peer);
    lemma_place(old(trace)@.connections, connection);
    lemma_records(r@);
}

/// A closed connection is recorded with its peer.
pub proof fn law_handle_closed_connection_is_recorded(
    trace: &mut Trace,
    now: u64,
    peer: PeerId,
    connection: ConnectionId,
    r: Vec<Record>,
)
    requires
        old(trace).wf(),
        call_ensures(handle_closed_connection, (trace, now, &peer, connection), r),
    ensures
        is_recorded(*old(trace), *final(trace), now, r@, "handle_closed_connection"@),
        old(trace).enabled ==> arity(r@) == 2,
        old(trace).enabled ==> given(r@, 0).name == "peer_id"@,
        old(trace).enabled ==> is_place(final(trace)@.peers, peer, given(r@, 0).value),
        old(trace).enabled ==> given(r@, 1).name == "connection_id"@,
        old(trace).enabled ==> is_place(final(trace)@.connections, connection, given(r@, 1).value),
{
    lemma_place(old(trace)@.peers, peer);
    lemma_place(old(trace)@.connections, connection);
    lemma_records(r@);
}

/// A failed connection is recorded with whether that is fatal.
pub proof fn law_handle_failed_connection_is_recorded(
    trace: &mut Trace,
    now: u64,
    connection: ConnectionId,
    fatal: bool,
    r: Vec<Record>,
)
    requires
        old(trace).wf(),
        call_ensures(handle_failed_connection, (trace, now, connection, fatal), r),
    ensures
        is_recorded(*old(trace), *final(trace), now, r@, "handle_failed_connection"@),
        old(trace).enabled ==> arity(r@) == 2,
        old(trace).enabled ==> given(r@, 0).name == "connection_id"@,
        old(trace).enabled ==> is_place(final(trace)@.connections, connection, given(r@, 0).value),
        old(trace).enabled ==> given(r@, 1).name == "fatal"@,
        old(trace).enabled ==> given(r@, 1).value == ValueView::Flag(fatal),
{
    lemma_place(old(trace)@.connections, connection);
    lemma_records(r@);
}

/// A dial is recorded with its connection, if there is one, and whether it was rejected.
pub proof fn law_dial_peer_is_recorded(
    trace: &mut Trace,
    now: u64,
    connection: Option<ConnectionId>,
    rejected: bool,
    r: Vec<Record>,
)
    requires
        old(trace).wf(),
        call_ensures(dial_peer, (trace, now, connection, rejected), r),
    ensures
        is_recorded(*old(trace), *final(trace), now, r@, "dial_peer"@),
        old(trace).enabled ==> arity(r@) == if rejected {
            2
        } else {
            1nat
        },
        old(trace).enabled && rejected ==> says_rejected(r@),
        old(trace).enabled ==> given(r@, 0).name == "connection_id"@,
        old(trace).enabled ==> match connection {
            Some(x) => is_place(final(trace)@.connections, x, given(r@, 0).value),
            None => given(r@, 0).value == ValueView::Number(0),
        },
{
    if let Some(x) = connection {
        lemma_place(old(trace)@.connections, x);
    }
    lemma_records(r@);
}

/// Closing a connection is recorded with its peer and whether it was rejected.
pub proof fn law_close_connection_is_recorded(
    trace: &mut Trace,
    now: u64,
    peer: PeerId,
    connection: ConnectionId,
    rejected: bool,
    r: Vec<Record>,
)
    requires
        old(trace).wf(),
        call_ensures(close_connection, (trace, now, &peer, connection, rejected), r),
    ensures
        is_recorded(*old(trace), *final(trace), now, r@, "close_connection"@),
        old(trace).enabled ==> arity(r@) == if rejected {
            3
        } else {
            2nat
        },
        old(trace).enabled && rejected ==> says_rejected(r@),
        old(trace).enabled ==> given(r@, 0).name == "peer_id"@,
        old(trace).enabled ==> is_place(final(trace)@.peers, peer, given(r@, 0).value),
        old(trace).enabled ==> given(r@, 1).name == "connection_id"@,
        old(trace).enabled ==> is_place(final(trace)@.connections, connection, given(r@, 1).value),
{
    lemma_place(old(trace)@.peers, peer);
    lemma_place(old(trace)@.connections, connection);
    lemma_records(r@);
}

/// Asking for peers is recorded with the request, if there is one.
pub proof fn law_peers_request_peer_is_recorded(
    trace: &mut Trace,
    now: u64,
    request_id: Option<&RequestId>,
    rejected: bool,
    r: Vec<Record>,
)
    requires
        old(trace).wf(),
        call_ensures(peers_request_peer, (trace, now, request_id, rejected), r),
    ensures
        is_recorded(*old(trace), *final(trace), now, r@, "peers_request_peer"@),
        old(trace).enabled ==> arity(r@) == if rejected {
            2
        } else {
            1nat
        },
        old(trace).enabled && rejected ==> says_rejected(r@),
        old(trace).enabled ==> given(r@, 0).name == "request_id"@,
        old(trace).enabled ==> match request_id {
            Some(x) => is_place(final(trace)@.requests, *x, given(r@, 0).value),
            None => given(r@, 0).value == ValueView::Number(0),
        },
{
    if let Some(x) = request_id {
        lemma_place(old(trace)@.requests, *x);
    }
    lemma_records(r@);
}

/// Asking to connect is recorded with the request, if there is one.
pub proof fn law_connect_request_peer_is_recorded(
    trace: &mut Trace,
    now: u64,
    request_id: Option<&RequestId>,
    rejected: bool,
    r: Vec<Record>,
)
    requires
        old(trace).wf(),
        call_ensures(connect_request_peer, (trace, now, request_id, rejected), r),
    ensures
        is_recorded(*old(trace), *final(trace), now, r@, "connect_request_peer"@),
        old(trace).enabled ==> arity(r@) == if rejected {
            2
        } else {
            1nat
        },
        old(trace).enabled && rejected ==> says_rejected(r@),
        old(trace).enabled ==> given(r@, 0).name == "request_id"@,
        old(trace).enabled ==> match request_id {
            Some(x) => is_place(final(trace)@.requests, *x, given(r@, 0).value),
            None => given(r@, 0).value == ValueView::Number(0),
        },
{
    if let Some(x) = request_id {
        lemma_place(old(trace)@.requests, *x);
    }
    lemma_records(r@);
}

/// A rate limiter is recorded with its limits; times count as one millisecond at least.
pub proof fn law_rate_limiter_new_is_recorded(
    trace: &mut Trace,
    now: u64,
    rate_window: u64,
    max_requests_per_window: u32,
    max_violations: u32,
    violation_expiry: u64,
    r: Vec<Record>,
)
    requires
        old(trace).wf(),
        call_ensures(rate_limiter_new, (trace, now, rate_window, max_requests_per_window, max_violations, violation_expiry), r),
    ensures
        is_recorded(*old(trace), *final(trace), now, r@, "DiscoveryRateLimiternew"@),
        old(trace).enabled ==> arity(r@) == 4,
        old(trace).enabled ==> given(r@, 0).name == "max_requests"@,
        old(trace).enabled ==> given(r@, 0).value == ValueView::Number(max_requests_per_window as int),
        old(trace).enabled ==> given(r@, 1).name == "max_violations"@,
        old(trace).enabled ==> given(r@, 1).value == ValueView::Number(max_violations as int),
        old(trace).enabled ==> given(r@, 2).name == "rate_window"@,
        old(trace).enabled ==> given(r@, 2).value == ValueView::Number(
            if rate_window == 0 {
                1
            } else {
                rate_window as int
            },
        ),
        old(trace).enabled ==> given(r@, 3).name == "violation_expiry"@,
        old(trace).enabled ==> given(r@, 3).value == ValueView::Number(
            if violation_expiry == 0 {
                1
            } else {
                violation_expiry as int
            },
        ),
{
    lemma_records(r@);
}

/// A dial that is done is recorded with what was dialed.
pub proof fn law_dial_register_done_on_is_recorded(
    trace: &mut Trace,
    now: u64,
    dial_data: DialData,
    register_addrs: bool,
    r: Vec<Record>,
)
    requires
        old(trace).wf(),
        call_ensures(dial_register_done_on, (trace, now, &dial_data, register_addrs), r),
    ensures
        is_recorded(*old(trace), *final(trace), now, r@, "Controllerdial_register_done_on"@),
        old(trace).enabled ==> arity(r@) == 2,
        old(trace).enabled ==> given(r@, 0).name == "dial_data"@,
        old(trace).enabled ==> is_dialed(*final(trace), dial_data, given(r@, 0).value),
        old(trace).enabled ==> given(r@, 1).name == "register_addrs"@,
        old(trace).enabled ==> given(r@, 1).value == ValueView::Flag(register_addrs),
{
    lemma_places(old(trace)@.addrs, addresses(dial_data.listen_addrs@));
    if let Some(p) = dial_data.peer_id {
        lemma_place(old(trace)@.peers, p);
    }
    lemma_records(r@);
}

/// A queued dial is recorded with what is dialed and how long it waits.
pub proof fn law_dial_add_to_queue_is_recorded(
    trace: &mut Trace,
    now: u64,
    dial_data: DialData,
    delay: Option<u64>,
    r: Vec<Record>,
)
    requires
        old(trace).wf(),
        call_ensures(dial_add_to_queue, (trace, now, &dial_data, delay), r),
    ensures
        is_recorded(*old(trace), *final(trace), now, r@, "Actionadd_to_queue"@),
        old(trace).enabled ==> arity(r@) == 2,
        old(trace).enabled ==> given(r@, 0).name == "value"@,
        old(trace).enabled ==> is_dialed(*final(trace), dial_data, given(r@, 0).value),
        old(trace).enabled ==> given(r@, 1).name == "delay"@,
        old(trace).enabled ==> given(r@, 1).value == ValueView::Number(
            match delay {
                Some(d) => d as int,
                None => 0,
            },
        ),
{
    lemma_places(old(trace)@.addrs, addresses(dial_data.listen_addrs@));
    if let Some(p) = dial_data.peer_id {
        lemma_place(old(trace)@.peers, p);
    }
    lemma_records(r@);
}

/// A peer that may be dialed again is recorded with its addresses.
pub proof fn law_dial_clear_done_for_peer_is_recorded(
    trace: &mut Trace,
    now: u64,
    peer: PeerId,
    listen_addrs: Vec<Multiaddr>,
    r: Vec<Record>,
)
    requires
        old(trace).wf(),
        call_ensures(dial_clear_done_for_peer, (trace, now, &peer, &listen_addrs), r),
    ensures
        is_recorded(*old(trace), *final(trace), now, r@, "Controllerdial_clear_done_for_peer"@),
        old(trace).enabled ==> arity(r@) == 2,
        old(trace).enabled ==> given(r@, 0).name == "peer_id"@,
        old(trace).enabled ==> is_place(final(trace)@.peers, peer, given(r@, 0).value),
        old(trace).enabled ==> given(r@, 1).name == "addrs"@,
        old(trace).enabled ==> (given(r@, 1).value matches ValueView::Numbers(numbers) && are_places(
            final(trace)@.addrs,
            addresses(listen_addrs@),
            numbers,
        )),
{
    lemma_place(old(trace)@.peers, peer);
    lemma_places(old(trace)@.addrs, addresses(listen_addrs@));
    lemma_records(r@);
}

/// A peer that identifies itself is recorded with its connection and its addresses.
pub proof fn law_handle_new_peer_is_recorded(
    trace: &mut Trace,
    now: u64,
    connection: ConnectionId,
    listen_addrs: Vec<Multiaddr>,
    rejected: bool,
    r: Vec<Record>,
)
    requires
        old(trace).wf(),
        call_ensures(handle_new_peer, (trace, now, connection, &listen_addrs, rejected), r),
    ensures
        is_recorded(*old(trace), *final(trace), now, r@, "handle_new_peer"@),
        old(trace).enabled ==> arity(r@) == if rejected {
            3
        } else {
            2nat
        },
        old(trace).enabled && rejected ==> says_rejected(r@),
        old(trace).enabled ==> given(r@, 0).name == "connection_id"@,
        old(trace).enabled ==> is_place(final(trace)@.connections, connection, given(r@, 0).value),
        old(trace).enabled ==> given(r@, 1).name == "listen_addrs"@,
        old(trace).enabled ==> (given(r@, 1).value matches ValueView::Numbers(numbers) && are_places(
            final(trace)@.addrs,
            addresses(listen_addrs@),
            numbers,
        )),
{
    lemma_place(old(trace)@.connections, connection);
    lemma_places(old(trace)@.addrs, addresses(listen_addrs@));
    lemma_records(r@);
}

} // verus!
