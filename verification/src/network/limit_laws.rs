//! What the limiter and the validator proofs decide, call by call.

use vstd::prelude::*;
use vstd::string::*;

use crate::bytes::Bytes;
use crate::engine::event::PeerId;
use crate::network::ip_limits::{
    extract_ip, ip_key, mapped_v4, peers_per_ip, prefix_64, Behaviour as Limits, Denied, IpState,
    LimitsView, SwarmEvent,
};
use crate::network::multiaddr::{ComponentView, IpAddr, Multiaddr, Protocol};
use crate::network::validator_proof::behaviour::{
    Behaviour as Proofs, ConnectionEvent, Error, Event, InnerEvent, Output, RequestOutcome,
};
use crate::network::validator_proof::codec::{ProofRequest, ProofRequestView};

verus! {

/// Whether a part of an address is an IP address.
pub open spec fn is_ip(c: ComponentView) -> bool {
    c.protocol is Ip4 || c.protocol is Ip6
}

proof fn lemma_ip_key(parts: Seq<ComponentView>, i: int)
    requires
        0 <= i < parts.len(),
        is_ip(parts[i]),
        forall|j: int| 0 <= j < i ==> !is_ip(#[trigger] parts[j]),
    ensures
        ip_key(parts) == ip_key(seq![parts[i]]),
    decreases i,
{
    if i > 0 {
        let rest = parts.drop_first();
        assert(!is_ip(parts[0]));
        assert(rest[i - 1] == parts[i]);
        assert forall|j: int| 0 <= j < i - 1 implies !is_ip(#[trigger] rest[j]) by {
            assert(rest[j] == parts[j + 1]);
        }
        lemma_ip_key(rest, i - 1);
    }
}

proof fn lemma_no_ip(parts: Seq<ComponentView>)
    requires
        forall|j: int| 0 <= j < parts.len() ==> !is_ip(#[trigger] parts[j]),
    ensures
        ip_key(parts) is None,
    decreases parts.len(),
{
    if parts.len() > 0 {
        assert(!is_ip(parts[0]));
        let rest = parts.drop_first();
        assert forall|j: int| 0 <= j < rest.len() implies !is_ip(#[trigger] rest[j]) by {
            assert(rest[j] == parts[j + 1]);
        }
        lemma_no_ip(rest);
    }
}

/// Connections from an address count under its first IP address: one of version 4
/// as it is, as is one that one of version 6 stands for, and any other one of
/// version 6 by its first eight bytes. Without an IP address they count under
/// none.
pub proof fn law_connections_count_under_their_ip(addr: Multiaddr, r: Option<IpAddr>, i: int)
    requires
        call_ensures(extract_ip, (&addr,), r),
    ensures
        (forall|j: int| 0 <= j < addr@.len() ==> !is_ip(#[trigger] addr@[j])) ==> r is None,
        0 <= i < addr@.len() && is_ip(addr@[i]) && (forall|j: int|
            0 <= j < i ==> !is_ip(#[trigger] addr@[j])) ==> match addr@[i].protocol {
            Protocol::Ip4(ip) => r == Some(IpAddr::V4(ip)),
            Protocol::Ip6(ip) => {
                let mapped = (forall|k: int| 0 <= k < 10 ==> ip.0@[k] == 0) && ip.0@[10] == 0xff
                    && ip.0@[11] == 0xff;
                &&& mapped ==> (r matches Some(IpAddr::V4(b)) && b.0@ =~= ip.0@.subrange(12, 16))
                &&& !mapped ==> (r matches Some(IpAddr::V6(b)) && b.0@.subrange(0, 8) =~= ip.0@.subrange(
                    0,
                    8,
                ) && forall|k: int| 8 <= k < 16 ==> b.0@[k] == 0)
            },
            _ => false,
        },
{
    if forall|j: int| 0 <= j < addr@.len() ==> !is_ip(#[trigger] addr@[j]) {
        lemma_no_ip(addr@);
    }
    if 0 <= i < addr@.len() && is_ip(addr@[i]) && (forall|j: int|
        0 <= j < i ==> !is_ip(#[trigger] addr@[j])) {
        lemma_ip_key(addr@, i);
        assert(seq![addr@[i]][0] == addr@[i]);
    }
}

/// The number of connections that count under `ip`.
pub open spec fn connections_at(s: LimitsView, ip: IpAddr) -> nat {
    if s.ip_state.contains_key(ip) {
        s.ip_state[ip].connections as nat
    } else {
        0
    }
}

/// Whether the last connection under `ip` was closed less than the delay ago.
pub open spec fn is_delayed(s: LimitsView, ip: IpAddr, now: u64) -> bool {
    s.ip_state.contains_key(ip) && (s.ip_state[ip].last_disconnect matches Some(t) && (if now >= t {
        now - t
    } else {
        0
    }) < s.throttle)
}

/// A connection is refused exactly where its IP address has as many as allowed, or
/// where it comes back within the delay and is no persistent peer's; the refusal
/// says which, how many there are, and how long ago it left. A refused connection
/// changes nothing. Without an IP address it is not refused, and not counted.
pub proof fn law_connection_is_refused_by_the_limits(
    limits: &mut Limits,
    connection: u64,
    addr: Multiaddr,
    now: u64,
    r: Result<(), Denied>,
    key: Option<IpAddr>,
)
    requires
        call_ensures(
            Limits::handle_pending_inbound_connection,
            (limits, connection, &addr, now),
            r,
        ),
        call_ensures(extract_ip, (&addr,), key),
    ensures
        key is None ==> r is Ok && final(limits)@ == old(limits)@,
        r is Err ==> final(limits)@ == old(limits)@,
        key matches Some(ip) ==> {
            let s = old(limits)@;
            let full = connections_at(s, ip) >= s.max;
            let early = !s.persistent.contains_key(ip) && is_delayed(s, ip, now);
            &&& r is Err <==> full || early
            &&& full ==> (r matches Err(Denied::IpLimitExceeded { ip: q, count }) && q == ip && count
                == connections_at(s, ip))
            &&& !full && early ==> (r matches Err(
                Denied::IpThrottled { ip: q, elapsed, throttle_duration },
            ) && q == ip && throttle_duration == s.throttle && elapsed == (if now
                >= s.ip_state[ip].last_disconnect->Some_0 {
                (now - s.ip_state[ip].last_disconnect->Some_0) as u64
            } else {
                0
            }))
        },
{
}

/// A connection that is not refused counts under its IP address, which has one more
/// and no delay; nothing changes for others.
pub proof fn law_accepted_connection_is_counted(
    limits: &mut Limits,
    connection: u64,
    addr: Multiaddr,
    now: u64,
    r: Result<(), Denied>,
    ip: IpAddr,
    other: IpAddr,
    c: u64,
)
    requires
        call_ensures(
            Limits::handle_pending_inbound_connection,
            (limits, connection, &addr, now),
            r,
        ),
        call_ensures(extract_ip, (&addr,), Some(ip)),
        r is Ok,
        other != ip,
        c != connection,
    ensures
        ({
            let s = old(limits)@;
            let t = final(limits)@;
            &&& t.connection_ips.contains_key(connection) && t.connection_ips[connection] == ip
            &&& t.connection_ips.contains_key(c) == s.connection_ips.contains_key(c)
            &&& connections_at(t, ip) == connections_at(s, ip) + 1
            &&& t.ip_state[ip].last_disconnect is None
            &&& t.ip_state.contains_key(other) == s.ip_state.contains_key(other)
            &&& s.ip_state.contains_key(other) ==> t.ip_state[other] == s.ip_state[other]
            &&& t.persistent == s.persistent && t.max == s.max && t.throttle == s.throttle
        }),
{
}

/// A counted connection that is closed, or fails before it is established, counts
/// no longer. With the last one under an IP address its delay begins, where there
/// is one and no persistent peer is there. Nothing else changes, and a connection
/// that is not counted changes nothing.
pub proof fn law_closed_connection_counts_no_longer(
    limits: &mut Limits,
    event: SwarmEvent,
    connection: u64,
    now: u64,
    other: IpAddr,
    c: u64,
)
    requires
        call_ensures(Limits::on_swarm_event, (limits, event, now), ()),
        event == SwarmEvent::ConnectionClosed(connection) || event == SwarmEvent::ListenFailure(
            connection,
        ),
        c != connection,
    ensures
        ({
            let s = old(limits)@;
            let t = final(limits)@;
            let ip = s.connection_ips[connection];
            &&& !t.connection_ips.contains_key(connection)
            &&& t.connection_ips.contains_key(c) == s.connection_ips.contains_key(c)
            &&& s.connection_ips.contains_key(c) ==> t.connection_ips[c] == s.connection_ips[c]
            &&& t.persistent == s.persistent
            &&& !s.connection_ips.contains_key(connection) ==> t.ip_state == s.ip_state
            &&& s.connection_ips.contains_key(connection) && connections_at(s, ip) > 0
                ==> connections_at(t, ip) == connections_at(s, ip) - 1
            &&& s.connection_ips.contains_key(connection) && connections_at(s, ip) == 1 ==> {
                &&& s.throttle > 0 && !s.persistent.contains_key(ip) ==> t.ip_state.contains_key(ip)
                    && t.ip_state[ip].last_disconnect == Some(now)
                &&& s.throttle == 0 || s.persistent.contains_key(ip) ==> !t.ip_state.contains_key(ip)
            }
            &&& (s.connection_ips.contains_key(connection) ==> other != ip) ==> t.ip_state.contains_key(
                other,
            ) == s.ip_state.contains_key(other) && (s.ip_state.contains_key(other)
                ==> t.ip_state[other] == s.ip_state[other])
        }),
{
}

/// Other events of the swarm are of no concern.
pub proof fn law_other_swarm_events_do_not_count(limits: &mut Limits, now: u64)
    requires
        call_ensures(Limits::on_swarm_event, (limits, SwarmEvent::Other, now), ()),
    ensures
        final(limits)@ == old(limits)@,
{
}

/// What is known of an IP address is dropped exactly where it has no connection and
/// its delay is over; this is done every five seconds. No connection and no
/// exemption is dropped.
pub proof fn law_expired_delays_are_dropped(
    limits: &mut Limits,
    polled: &mut Limits,
    now: u64,
    ip: IpAddr,
)
    requires
        call_ensures(Limits::evict_expired, (limits, now), ()),
        call_ensures(Limits::poll, (polled, now), ()),
        old(polled)@ == old(limits)@,
    ensures
        ({
            let s = old(limits)@;
            let t = final(limits)@;
            let due = now >= s.last_eviction && now - s.last_eviction >= 5_000_000_000;
            &&& t.ip_state.contains_key(ip) == (s.ip_state.contains_key(ip) && (
            s.ip_state[ip].connections > 0 || is_delayed(s, ip, now)))
            &&& t.ip_state.contains_key(ip) ==> t.ip_state[ip] == s.ip_state[ip]
            &&& t.connection_ips == s.connection_ips && t.persistent == s.persistent
            &&& due ==> final(polled)@ == (LimitsView { last_eviction: now, ..t })
            &&& !due ==> final(polled)@ == s
        }),
{
}

/// A persistent peer exempts its IP address from the delay, from the first there to
/// the last; with the first, a delay that runs ends. Connections stay counted.
pub proof fn law_persistent_ip_is_exempt(
    limits: &mut Limits,
    removed: &mut Limits,
    ip: IpAddr,
    now: u64,
    other: IpAddr,
)
    requires
        call_ensures(Limits::add_persistent_ip, (limits, ip), ()),
        old(limits)@.persistent.contains_key(ip) ==> 1 <= old(limits)@.persistent[ip] < usize::MAX,
        old(removed)@ == final(limits)@,
        call_ensures(Limits::remove_persistent_ip, (removed, ip), ()),
        other != ip,
    ensures
        ({
            let s = old(limits)@;
            let t = final(limits)@;
            let u = final(removed)@;
            &&& t.persistent.contains_key(ip)
            &&& t.persistent[ip] == if s.persistent.contains_key(ip) {
                s.persistent[ip] + 1
            } else {
                1
            }
            &&& !s.persistent.contains_key(ip) ==> !is_delayed(t, ip, now)
            &&& connections_at(t, ip) == connections_at(s, ip)
            &&& t.persistent.contains_key(other) == s.persistent.contains_key(other)
            &&& t.ip_state.contains_key(other) == s.ip_state.contains_key(other)
            &&& u.persistent =~= s.persistent
            &&& u.ip_state == t.ip_state
            &&& t.connection_ips == s.connection_ips
        }),
{
}

/// A new limiter counts no connection, and exempts the IP addresses of the
/// persistent peers that it is given.
pub proof fn law_limiter_begins_empty(
    max: usize,
    throttle: u64,
    addrs: Vec<Multiaddr>,
    now: u64,
    r: Limits,
    ip: IpAddr,
    i: int,
)
    requires
        call_ensures(Limits::new, (max, throttle, &addrs, now), r),
    ensures
        r@.max == max && r@.throttle == throttle && r@.last_eviction == now,
        !r@.ip_state.contains_key(ip),
        forall|c: u64| !r@.connection_ips.contains_key(c),
        0 <= i < addrs@.len() && ip_key(addrs@[i]@) == Some(ip) ==> r@.persistent.contains_key(ip),
        r@.persistent.contains_key(ip) ==> exists|k: int|
            0 <= k < addrs@.len() && ip_key((#[trigger] addrs@[k])@) == Some(ip),
{
    lemma_exempt(addrs@, ip);
    if 0 <= i < addrs@.len() && ip_key(addrs@[i]@) == Some(ip) {
        assert(exists|k: int| 0 <= k < addrs@.len() && ip_key((#[trigger] addrs@[k])@) == Some(ip));
    }
}

proof fn lemma_exempt(addrs: Seq<Multiaddr>, ip: IpAddr)
    ensures
        peers_per_ip(addrs).contains_key(ip) == exists|k: int|
            0 <= k < addrs.len() && ip_key((#[trigger] addrs[k])@) == Some(ip),
    decreases addrs.len(),
{
    if addrs.len() > 0 {
        let rest = addrs.drop_last();
        lemma_exempt(rest, ip);
        if exists|k: int| 0 <= k < rest.len() && ip_key((#[trigger] rest[k])@) == Some(ip) {
            let k = choose|k: int| 0 <= k < rest.len() && ip_key((#[trigger] rest[k])@) == Some(ip);
            assert(addrs[k] == rest[k]);
        }
        if exists|k: int| 0 <= k < addrs.len() && ip_key((#[trigger] addrs[k])@) == Some(ip) {
            let k = choose|k: int| 0 <= k < addrs.len() && ip_key((#[trigger] addrs[k])@) == Some(ip);
            if k < rest.len() {
                assert(rest[k] == addrs[k]);
            }
        }
        assert(addrs[addrs.len() - 1] == addrs.last());
    }
}

/// The first proof of a peer in a session is delivered as it came, and is the only
/// one: any other request of the peer, and any that is malformed, is rejected. What
/// is remembered of other peers, and the proof of this node, stay.
pub proof fn law_first_proof_is_delivered(
    proofs: &mut Proofs,
    peer: PeerId,
    request: ProofRequest,
    r: RequestOutcome,
    other: PeerId,
)
    requires
        call_ensures(Proofs::classify_request, (proofs, peer, request), r),
        other != peer,
    ensures
        r is Deliver <==> request is Proof && !old(proofs)@.received.contains(peer),
        r matches RequestOutcome::Deliver(b) ==> (request matches ProofRequest::Proof(p) && b@ == p@),
        request is Malformed ==> (r matches RequestOutcome::Reject(t) && t@
            == "malformed validator proof"@),
        request is Proof && old(proofs)@.received.contains(peer) ==> (r matches RequestOutcome::Reject(
            t,
        ) && t@ == "duplicate validator proof"@),
        final(proofs)@.received.contains(peer) == (old(proofs)@.received.contains(peer) || r is Deliver),
        final(proofs)@.received.contains(other) == old(proofs)@.received.contains(other),
        final(proofs)@.proof_bytes == old(proofs)@.proof_bytes,
{
}

/// The proof of this node is sent to a peer with the first connection, where there
/// is one, and only then. A session ends with the last connection, and only that of
/// its peer.
pub proof fn law_proof_is_sent_once_per_session(
    proofs: &mut Proofs,
    peer: PeerId,
    event: ConnectionEvent,
    r: Option<ProofRequest>,
    other: PeerId,
)
    requires
        call_ensures(Proofs::on_swarm_event, (proofs, peer, event), r),
        other != peer,
    ensures
        r is Some <==> (event matches ConnectionEvent::Established { others } && others == 0) && old(
            proofs,
        )@.proof_bytes is Some,
        r matches Some(q) ==> (q matches ProofRequest::Proof(b) && old(proofs)@.proof_bytes == Some(b@)),
        final(proofs)@.received.contains(peer) == (old(proofs)@.received.contains(peer) && !(
        event matches ConnectionEvent::Closed { remaining } && remaining == 0)),
        final(proofs)@.received.contains(other) == old(proofs)@.received.contains(other),
        final(proofs)@.proof_bytes == old(proofs)@.proof_bytes,
{
}

/// A proof that is delivered is reported with its peer, and a request that is
/// rejected closes the connections to its peer. That the proof of this node was
/// sent, or could not be and why, is reported.
pub proof fn law_requests_are_reported_or_closed(
    proofs: &mut Proofs,
    other: &mut Proofs,
    event: InnerEvent,
    peer: PeerId,
    request: ProofRequest,
    r: Option<Output>,
    outcome: RequestOutcome,
)
    requires
        call_ensures(Proofs::on_inner_event, (proofs, event), r),
        call_ensures(Proofs::classify_request, (other, peer, request), outcome),
        old(other)@ == old(proofs)@,
    ensures
        event == InnerEvent::Request(peer, request) ==> {
            &&& final(proofs)@ == final(other)@
            &&& outcome matches RequestOutcome::Deliver(b) ==> (r matches Some(
                Output::Emit(Event::ProofReceived { peer: p, proof_bytes }),
            ) && p == peer && proof_bytes@ == b@)
            &&& outcome is Reject ==> r == Some(Output::CloseConnections(peer))
        },
        event == InnerEvent::Response(peer) ==> r == Some(Output::Emit(Event::ProofSent { peer })),
        event matches InnerEvent::OutboundFailure(p, e) ==> r == Some(
            Output::Emit(Event::ProofSendFailed { peer: p, error: Error::Io(e) }),
        ),
        event is Other ==> r is None,
        !(event is Request) ==> final(proofs)@ == old(proofs)@,
{
}

/// A proof that is set is there to be sent.
pub proof fn law_set_proof_is_there(proofs: &mut Proofs, bytes: Vec<u8>, after: &Proofs, has: bool)
    requires
        call_ensures(Proofs::set_proof, (proofs, bytes), ()),
        *after == *final(proofs),
        call_ensures(Proofs::has_proof, (after,), has),
    ensures
        has,
        final(proofs)@.proof_bytes == Some(bytes@),
        final(proofs)@.received == old(proofs)@.received,
{
}

} // verus!
