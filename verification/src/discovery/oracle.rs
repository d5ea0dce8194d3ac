//! A trace of what discovery does, for comparing it with a model of discovery.
//!
//! In the trace peers, connections and requests are numbered one, two, three and
//! so on in the order in which they are first seen, and addresses ten, twenty,
//! thirty. Zero stands for none. A trace that is off records nothing.

use vstd::prelude::*;

use crate::discovery::state::{addresses, AddressView, ConnectionId};
use crate::engine::event::{PeerId, RequestId};
use crate::first_seen::{number_of, with_all_seen, with_seen, FirstSeen};
use crate::network::multiaddr::Multiaddr;

verus! {

/// The nanoseconds in a millisecond.
pub const NANOS_PER_MILLI: u64 = 1_000_000;

/// The value of an argument.
pub enum Value {
    Number(u128),
    Flag(bool),
    Text(&'static str),
    /// A set of numbers.
    Numbers(Vec<u128>),
    /// What is dialed.
    Dial { peer_id: u128, listen_addrs: Vec<u128>, retry: u64, is_bootstrap: bool },
}

/// The value of an argument, as a value.
pub enum ValueView {
    Number(int),
    Flag(bool),
    Text(Seq<char>),
    Numbers(Set<int>),
    Dial { peer_id: int, listen_addrs: Set<int>, retry: u64, is_bootstrap: bool },
}

/// The numbers in a list.
pub open spec fn number_set(numbers: Seq<u128>) -> Set<int> {
    Set::new(|n: int| lists(numbers, n))
}

/// Whether `n` is one of `numbers`.
pub open spec fn lists(numbers: Seq<u128>, n: int) -> bool {
    exists|i: int| 0 <= i < numbers.len() && #[trigger] numbers[i] as int == n
}

impl View for Value {
    type V = ValueView;

    open spec fn view(&self) -> ValueView {
        match self {
            Value::Number(n) => ValueView::Number(*n as int),
            Value::Flag(b) => ValueView::Flag(*b),
            Value::Text(t) => ValueView::Text(t@),
            Value::Numbers(n) => ValueView::Numbers(number_set(n@)),
            Value::Dial { peer_id, listen_addrs, retry, is_bootstrap } => ValueView::Dial {
                peer_id: *peer_id as int,
                listen_addrs: number_set(listen_addrs@),
                retry: *retry,
                is_bootstrap: *is_bootstrap,
            },
        }
    }
}

/// An argument of an event, with the domain that its value is from where that
/// is to be recorded.
pub struct Arg {
    pub name: &'static str,
    pub value: Value,
    pub domain: Option<&'static str>,
}

/// An argument of an event, as a value.
pub struct ArgView {
    pub name: Seq<char>,
    pub value: ValueView,
    pub domain: Option<Seq<char>>,
}

impl View for Arg {
    type V = ArgView;

    open spec fn view(&self) -> ArgView {
        ArgView {
            name: self.name@,
            value: self.value@,
            domain: match self.domain {
                Some(d) => Some(d@),
                None => None,
            },
        }
    }
}

/// An argument.
pub open spec fn argument(name: Seq<char>, value: ValueView, domain: Option<Seq<char>>) -> ArgView {
    ArgView { name, value, domain }
}

/// Arguments, as values.
pub open spec fn arg_views(args: Seq<Arg>) -> Seq<ArgView> {
    args.map_values(|a: Arg| a@)
}

/// A recorded event.
pub struct Record {
    pub action: &'static str,
    pub args: Vec<Arg>,
}

/// A recorded event, as a value.
pub struct RecordView {
    pub action: Seq<char>,
    pub args: Seq<ArgView>,
}

impl View for Record {
    type V = RecordView;

    open spec fn view(&self) -> RecordView {
        RecordView { action: self.action@, args: arg_views(self.args@) }
    }
}

/// Recorded events, as values.
pub open spec fn record_views(records: Seq<Record>) -> Seq<RecordView> {
    records.map_values(|r: Record| r@)
}

/// What is dialed.
pub struct DialData {
    pub peer_id: Option<PeerId>,
    pub listen_addrs: Vec<Multiaddr>,
    /// How often the dial was tried again.
    pub retry: u64,
    /// Whether a configured peer is dialed.
    pub is_bootstrap: bool,
}

/// A trace: what was seen so far, and when the last event was.
pub struct Trace {
    /// Whether events are recorded.
    pub enabled: bool,
    pub peers: FirstSeen<PeerId>,
    pub addrs: FirstSeen<Multiaddr>,
    pub connections: FirstSeen<ConnectionId>,
    pub requests: FirstSeen<RequestId>,
    /// When the last event was recorded, in nanoseconds.
    pub last_event: Option<u64>,
}

/// A trace, as a value.
pub struct TraceView {
    pub enabled: bool,
    pub peers: Seq<PeerId>,
    pub addrs: Seq<AddressView>,
    pub connections: Seq<ConnectionId>,
    pub requests: Seq<RequestId>,
    pub last_event: Option<u64>,
}

impl View for Trace {
    type V = TraceView;

    open spec fn view(&self) -> TraceView {
        TraceView {
            enabled: self.enabled,
            peers: self.peers@,
            addrs: self.addrs@,
            connections: self.connections@,
            requests: self.requests@,
            last_event: self.last_event,
        }
    }
}

/// At least one.
pub open spec fn max_one(n: int) -> int {
    if n < 1 {
        1
    } else {
        n
    }
}

/// At least one.
fn at_least_one(n: u64) -> (r: u128)
    ensures
        r == max_one(n as int),
{
    if n < 1 {
        1
    } else {
        n as u128
    }
}

/// The number of an address.
pub open spec fn address_number(seen: Seq<AddressView>, a: AddressView) -> int {
    (number_of(seen, a) * 10) as int
}

/// Whether `n` is the number of one of the addresses `a`, once these were seen
/// after `seen`.
pub open spec fn numbers_address(seen: Seq<AddressView>, a: Seq<AddressView>, n: int) -> bool {
    exists|i: int|
        0 <= i < a.len() && n == address_number(with_all_seen(seen, a), #[trigger] a[i])
}

/// The numbers of the addresses `a`, once these were seen after `seen`.
pub open spec fn numbers_after(seen: Seq<AddressView>, a: Seq<AddressView>) -> Set<int> {
    Set::new(|n: int| numbers_address(seen, a, n))
}

/// The arguments, with the outcome where the event was rejected.
pub open spec fn with_outcome(args: Seq<ArgView>, rejected: bool) -> Seq<ArgView> {
    if rejected {
        args.push(argument("outcome"@, ValueView::Text("rejected"@), None))
    } else {
        args
    }
}

impl TraceView {
    /// Whether a millisecond or more has passed since the last event.
    pub open spec fn ticks(self, now: u64) -> bool {
        match self.last_event {
            Some(last) => now >= last + NANOS_PER_MILLI,
            None => false,
        }
    }

    /// The trace after an event, and what is recorded: that time has passed,
    /// where it has, and then the event.
    pub open spec fn logged(self, now: u64, action: Seq<char>, args: Seq<ArgView>) -> (
        TraceView,
        Seq<RecordView>,
    ) {
        let tick = seq![
            RecordView {
                action: "clock_tick"@,
                args: seq![argument("amount"@, ValueView::Number(1), None)],
            },
        ];
        (
            TraceView { last_event: Some(now), ..self },
            (if self.ticks(now) {
                tick
            } else {
                Seq::empty()
            }).push(RecordView { action, args }),
        )
    }

    /// The number of a peer.
    pub open spec fn peer_number(self, p: PeerId) -> int {
        number_of(self.peers, p) as int
    }

    /// The trace after a peer was seen.
    pub open spec fn with_peer(self, p: PeerId) -> TraceView {
        TraceView { peers: with_seen(self.peers, p), ..self }
    }

    /// The number of a peer, or zero.
    pub open spec fn optional_peer_number(self, p: Option<&PeerId>) -> int {
        match p {
            Some(p) => self.peer_number(*p),
            None => 0,
        }
    }

    /// The trace after a peer was seen, if there is one.
    pub open spec fn with_optional_peer(self, p: Option<&PeerId>) -> TraceView {
        match p {
            Some(p) => self.with_peer(*p),
            None => self,
        }
    }

    /// The number of a connection.
    pub open spec fn connection_number(self, c: ConnectionId) -> int {
        number_of(self.connections, c) as int
    }

    /// The trace after a connection was seen.
    pub open spec fn with_connection(self, c: ConnectionId) -> TraceView {
        TraceView { connections: with_seen(self.connections, c), ..self }
    }

    /// The number of a connection, or zero.
    pub open spec fn optional_connection_number(self, c: Option<ConnectionId>) -> int {
        match c {
            Some(c) => self.connection_number(c),
            None => 0,
        }
    }

    /// The trace after a connection was seen, if there is one.
    pub open spec fn with_optional_connection(self, c: Option<ConnectionId>) -> TraceView {
        match c {
            Some(c) => self.with_connection(c),
            None => self,
        }
    }

    /// The number of a request.
    pub open spec fn request_number(self, q: RequestId) -> int {
        number_of(self.requests, q) as int
    }

    /// The trace after a request was seen.
    pub open spec fn with_request(self, q: RequestId) -> TraceView {
        TraceView { requests: with_seen(self.requests, q), ..self }
    }

    /// The number of a request, or zero.
    pub open spec fn optional_request_number(self, q: Option<&RequestId>) -> int {
        match q {
            Some(q) => self.request_number(*q),
            None => 0,
        }
    }

    /// The trace after a request was seen, if there is one.
    pub open spec fn with_optional_request(self, q: Option<&RequestId>) -> TraceView {
        match q {
            Some(q) => self.with_request(*q),
            None => self,
        }
    }

    /// The trace after addresses were seen, one after the other.
    pub open spec fn with_addresses(self, a: Seq<AddressView>) -> TraceView {
        TraceView { addrs: with_all_seen(self.addrs, a), ..self }
    }

    /// The numbers of addresses.
    pub open spec fn address_numbers(self, a: Seq<AddressView>) -> Set<int> {
        numbers_after(self.addrs, a)
    }

    /// The trace after what is dialed was seen.
    pub open spec fn with_dial(self, d: DialData) -> TraceView {
        let seen = self.with_addresses(addresses(d.listen_addrs@));
        match d.peer_id {
            Some(p) => seen.with_peer(p),
            None => seen,
        }
    }

    /// What is dialed, with its numbers.
    pub open spec fn dial_value(self, d: DialData) -> ValueView {
        ValueView::Dial {
            peer_id: match d.peer_id {
                Some(p) => self.peer_number(p),
                None => 0,
            },
            listen_addrs: self.address_numbers(addresses(d.listen_addrs@)),
            retry: d.retry,
            is_bootstrap: d.is_bootstrap,
        }
    }
}

/// Seeing values one after the other, and then one more.
proof fn lemma_with_all_seen_push<V>(seen: Seq<V>, more: Seq<V>, i: int)
    requires
        0 <= i < more.len(),
    ensures
        with_all_seen(seen, more.subrange(0, i + 1)) == with_seen(
            with_all_seen(seen, more.subrange(0, i)),
            more[i],
        ),
{
    assert(more.subrange(0, i + 1).drop_last() =~= more.subrange(0, i));
    assert(more.subrange(0, i + 1).last() == more[i]);
}

/// Whether the first `n` of `out` are the numbers of the first `n` of `all`.
spec fn are_numbers(seen: Seq<AddressView>, all: Seq<AddressView>, out: Seq<u128>, n: int) -> bool {
    forall|j: int|
        #![trigger all[j]]
        #![trigger out[j]]
        0 <= j < n ==> seen.contains(all[j]) && out[j] as int == address_number(seen, all[j])
}

/// One more number leaves the others as they are.
proof fn lemma_next_number(
    seen: Seq<AddressView>,
    all: Seq<AddressView>,
    out: Seq<u128>,
    at: int,
    next: u128,
)
    requires
        seen.no_duplicates(),
        0 <= at < all.len(),
        out.len() == at,
        are_numbers(seen, all, out, at),
        next == number_of(seen, all[at]) * 10,
    ensures
        are_numbers(with_seen(seen, all[at]), all, out.push(next), at + 1),
{
    let a = all[at];
    let after = with_seen(seen, a);
    let longer = out.push(next);
    assert(after.no_duplicates());
    assert(after.contains(a)) by {
        if !seen.contains(a) {
            assert(after[seen.len() as int] == a);
        }
    }
    assert(number_of(after, a) == number_of(seen, a)) by {
        if !seen.contains(a) {
            assert(after[seen.len() as int] == a);
            assert(after.index_of(a) == seen.len());
        }
    }
    assert forall|j: int|
        #![trigger all[j]]
        0 <= j < at + 1 implies after.contains(all[j]) && longer[j] as int == address_number(
        after,
        all[j],
    ) by {
        if j < at {
            assert(longer[j] == out[j]);
            let k = seen.index_of(all[j]);
            assert(seen[k] == all[j]);
            assert(after[k] == all[j]);
            assert(after.contains(all[j]));
            assert(after.index_of(all[j]) == k);
        } else {
            assert(all[j] == a);
        }
    }
}

impl Trace {
    /// Nothing is seen twice.
    pub open spec fn wf(self) -> bool {
        &&& self.peers.wf()
        &&& self.addrs.wf()
        &&& self.connections.wf()
        &&& self.requests.wf()
    }

    /// A trace without events.
    pub fn new(enabled: bool) -> (r: Self)
        ensures
            r.wf(),
            r@ == (TraceView {
                enabled,
                peers: Seq::empty(),
                addrs: Seq::empty(),
                connections: Seq::empty(),
                requests: Seq::empty(),
                last_event: None,
            }),
    {
        Trace {
            enabled,
            peers: FirstSeen::new(),
            addrs: FirstSeen::new(),
            connections: FirstSeen::new(),
            requests: FirstSeen::new(),
            last_event: None,
        }
    }

    /// Record an event, and before it that time has passed, where it has.
    fn log(&mut self, now: u64, action: &'static str, args: Vec<Arg>) -> (r: Vec<Record>)
        requires
            old(self).wf(),
        ensures
            final(self).wf(),
            (final(self)@, record_views(r@)) == old(self)@.logged(now, action@, arg_views(args@)),
    {
        let ghost want = self@.logged(now, action@, arg_views(args@));
        let mut records: Vec<Record> = Vec::new();
        let ticks = match self.last_event {
            Some(last) => now >= last && now - last >= NANOS_PER_MILLI,
            None => false,
        };
        if ticks {
            let mut amount: Vec<Arg> = Vec::new();
            amount.push(Arg { name: "amount", value: Value::Number(1), domain: None });
            assert(arg_views(amount@) =~= seq![argument("amount"@, ValueView::Number(1), None)]);
            records.push(Record { action: "clock_tick", args: amount });
        }
        records.push(Record { action, args });
        self.last_event = Some(now);
        assert(record_views(records@) =~= want.1);
        records
    }

    /// The number of a peer.
    fn peer_number(&mut self, p: &PeerId) -> (r: u128)
        requires
            old(self).wf(),
        ensures
            final(self).wf(),
            final(self)@ == old(self)@.with_peer(*p),
            r == old(self)@.peer_number(*p),
    {
        self.peers.number(p) as u128
    }

    /// The number of a peer, or zero.
    fn optional_peer_number(&mut self, p: Option<&PeerId>) -> (r: u128)
        requires
            old(self).wf(),
        ensures
            final(self).wf(),
            final(self)@ == old(self)@.with_optional_peer(p),
            r == old(self)@.optional_peer_number(p),
    {
        match p {
            Some(p) => self.peer_number(p),
            None => 0,
        }
    }

    /// The number of a connection.
    fn connection_number(&mut self, c: ConnectionId) -> (r: u128)
        requires
            old(self).wf(),
        ensures
            final(self).wf(),
            final(self)@ == old(self)@.with_connection(c),
            r == old(self)@.connection_number(c),
    {
        self.connections.number(&c) as u128
    }

    /// The number of a connection, or zero.
    fn optional_connection_number(&mut self, c: Option<ConnectionId>) -> (r: u128)
        requires
            old(self).wf(),
        ensures
            final(self).wf(),
            final(self)@ == old(self)@.with_optional_connection(c),
            r == old(self)@.optional_connection_number(c),
    {
        match c {
            Some(c) => self.connection_number(c),
            None => 0,
        }
    }

    /// The number of a request.
    fn request_number(&mut self, q: &RequestId) -> (r: u128)
        requires
            old(self).wf(),
        ensures
            final(self).wf(),
            final(self)@ == old(self)@.with_request(*q),
            r == old(self)@.request_number(*q),
    {
        self.requests.number(q) as u128
    }

    /// The number of a request, or zero.
    fn optional_request_number(&mut self, q: Option<&RequestId>) -> (r: u128)
        requires
            old(self).wf(),
        ensures
            final(self).wf(),
            final(self)@ == old(self)@.with_optional_request(q),
            r == old(self)@.optional_request_number(q),
    {
        match q {
            Some(q) => self.request_number(q),
            None => 0,
        }
    }

    /// The numbers of addresses.
    fn address_numbers(&mut self, addrs: &Vec<Multiaddr>) -> (r: Vec<u128>)
        requires
            old(self).wf(),
        ensures
            final(self).wf(),
            final(self)@ == old(self)@.with_addresses(addresses(addrs@)),
            number_set(r@) == old(self)@.address_numbers(addresses(addrs@)),
    {
        let ghost start = self@;
        let ghost all = addresses(addrs@);
        let mut out: Vec<u128> = Vec::new();
        let mut i: usize = 0;
        assert(all.subrange(0, 0) =~= Seq::<AddressView>::empty());
        while i < addrs.len()
            invariant
                self.wf(),
                i <= addrs@.len(),
                all == addresses(addrs@),
                self@ == start.with_addresses(all.subrange(0, i as int)),
                start.addrs.no_duplicates(),
                out@.len() == i,
                are_numbers(self@.addrs, all, out@, i as int),
            decreases addrs@.len() - i,
        {
            let ghost before = self@.addrs;
            let n: usize = self.addrs.number(&addrs[i]);
            let ghost listed = out@;
            out.push(n as u128 * 10);
            proof {
                lemma_with_all_seen_push(start.addrs, all, i as int);
                assert(all[i as int] == addrs@[i as int]@);
                lemma_next_number(before, all, listed, i as int, out@[i as int]);
                assert(out@ =~= listed.push(out@[i as int]));
            }
            i = i + 1;
        }
        proof {
            assert(all.subrange(0, i as int) =~= all);
            assert forall|n: int| lists(out@, n) == numbers_address(start.addrs, all, n) by {
                if lists(out@, n) {
                    let k = choose|k: int| 0 <= k < out@.len() && #[trigger] out@[k] as int == n;
                    assert(n == address_number(with_all_seen(start.addrs, all), all[k]));
                }
                if numbers_address(start.addrs, all, n) {
                    let k = choose|k: int|
                        0 <= k < all.len() && n == address_number(
                            with_all_seen(start.addrs, all),
                            #[trigger] all[k],
                        );
                    assert(out@[k] as int == n);
                }
            }
            assert(number_set(out@) =~= start.address_numbers(all));
        }
        out
    }

    /// What is dialed, with its numbers.
    fn dial_value(&mut self, d: &DialData) -> (r: Value)
        requires
            old(self).wf(),
        ensures
            final(self).wf(),
            final(self)@ == old(self)@.with_dial(*d),
            r@ == old(self)@.dial_value(*d),
    {
        let listen_addrs = self.address_numbers(&d.listen_addrs);
        let peer_id = match &d.peer_id {
            Some(p) => self.peer_number(p),
            None => 0,
        };
        Value::Dial { peer_id, listen_addrs, retry: d.retry, is_bootstrap: d.is_bootstrap }
    }
}

/// No events.
fn no_records() -> (r: Vec<Record>)
    ensures
        record_views(r@) == Seq::<RecordView>::empty(),
{
    let r: Vec<Record> = Vec::new();
    assert(record_views(r@) =~= Seq::<RecordView>::empty());
    r
}

/// Add the outcome where the event was rejected.
fn add_outcome(args: &mut Vec<Arg>, rejected: bool)
    ensures
        arg_views(final(args)@) == with_outcome(arg_views(old(args)@), rejected),
{
    let ghost before = args@;
    if rejected {
        args.push(Arg { name: "outcome", value: Value::Text("rejected"), domain: None });
        assert(arg_views(args@) =~= arg_views(before).push(
            argument("outcome"@, ValueView::Text("rejected"@), None),
        ));
    }
}

/// A bootstrap query was successful.
pub fn handle_successful_bootstrap(
    trace: &mut Trace,
    now: u64,
) -> (r: Vec<Record>)
    requires
        old(trace).wf(),
    ensures
        final(trace).wf(),
        (final(trace)@, record_views(r@)) == if old(trace)@.enabled {
            old(trace)@.logged(now, "handle_successful_bootstrap"@, Seq::empty())
        } else {
            (old(trace)@, Seq::empty())
        },
{
    if !trace.enabled {
        return no_records();
    }
    let args: Vec<Arg> = Vec::new();
    assert(arg_views(args@) =~= Seq::<ArgView>::empty());
    trace.log(now, "handle_successful_bootstrap", args)
}

/// A bootstrap query has failed.
pub fn handle_failed_bootstrap(
    trace: &mut Trace,
    now: u64,
) -> (r: Vec<Record>)
    requires
        old(trace).wf(),
    ensures
        final(trace).wf(),
        (final(trace)@, record_views(r@)) == if old(trace)@.enabled {
            old(trace)@.logged(now, "handle_failed_bootstrap"@, Seq::empty())
        } else {
            (old(trace)@, Seq::empty())
        },
{
    if !trace.enabled {
        return no_records();
    }
    let args: Vec<Arg> = Vec::new();
    assert(arg_views(args@) =~= Seq::<ArgView>::empty());
    trace.log(now, "handle_failed_bootstrap", args)
}

/// The set of peers was extended as far as needed.
pub fn make_extension_step(
    trace: &mut Trace,
    now: u64,
) -> (r: Vec<Record>)
    requires
        old(trace).wf(),
    ensures
        final(trace).wf(),
        (final(trace)@, record_views(r@)) == if old(trace)@.enabled {
            old(trace)@.logged(now, "make_extension_step"@, Seq::empty())
        } else {
            (old(trace)@, Seq::empty())
        },
{
    if !trace.enabled {
        return no_records();
    }
    let args: Vec<Arg> = Vec::new();
    assert(arg_views(args@) =~= Seq::<ArgView>::empty());
    trace.log(now, "make_extension_step", args)
}

/// A peer asks for peers.
pub fn check_request(
    trace: &mut Trace,
    now: u64,
    peer: &PeerId,
) -> (r: Vec<Record>)
    requires
        old(trace).wf(),
    ensures
        final(trace).wf(),
        (final(trace)@, record_views(r@)) == if old(trace)@.enabled {
            let next = old(trace)@.with_peer(*peer);
            next.logged(now, "check_request"@, seq![
                        argument("peer"@, ValueView::Number(old(trace)@.peer_number(*peer)), None),
                    ])
        } else {
            (old(trace)@, Seq::empty())
        },
{
    if !trace.enabled {
        return no_records();
    }
    let id: u128 = trace.peer_number(peer);
    let mut args: Vec<Arg> = Vec::new();
    args.push(Arg { name: "peer", value: Value::Number(id), domain: None });
    assert(arg_views(args@) =~= seq![
        argument("peer"@, ValueView::Number(old(trace)@.peer_number(*peer)), None),
    ]);
    trace.log(now, "check_request", args)
}

/// The requests of a peer are forgotten.
pub fn rate_limiter_remove_peer(
    trace: &mut Trace,
    now: u64,
    peer: &PeerId,
) -> (r: Vec<Record>)
    requires
        old(trace).wf(),
    ensures
        final(trace).wf(),
        (final(trace)@, record_views(r@)) == if old(trace)@.enabled {
            let next = old(trace)@.with_peer(*peer);
            next.logged(now, "DiscoveryRateLimiterremove_peer"@, seq![
                        argument("peer_id"@, ValueView::Number(old(trace)@.peer_number(*peer)), None),
                    ])
        } else {
            (old(trace)@, Seq::empty())
        },
{
    if !trace.enabled {
        return no_records();
    }
    let id: u128 = trace.peer_number(peer);
    let mut args: Vec<Arg> = Vec::new();
    args.push(Arg { name: "peer_id", value: Value::Number(id), domain: None });
    assert(arg_views(args@) =~= seq![
        argument("peer_id"@, ValueView::Number(old(trace)@.peer_number(*peer)), None),
    ]);
    trace.log(now, "DiscoveryRateLimiterremove_peer", args)
}

/// A peer asks to be an outbound peer.
pub fn handle_connect_request(
    trace: &mut Trace,
    now: u64,
    peer: &PeerId,
) -> (r: Vec<Record>)
    requires
        old(trace).wf(),
    ensures
        final(trace).wf(),
        (final(trace)@, record_views(r@)) == if old(trace)@.enabled {
            let next = old(trace)@.with_peer(*peer);
            next.logged(now, "handle_connect_request"@, seq![
                        argument("peer"@, ValueView::Number(old(trace)@.peer_number(*peer)), Some("PEERS"@)),
                    ])
        } else {
            (old(trace)@, Seq::empty())
        },
{
    if !trace.enabled {
        return no_records();
    }
    let id: u128 = trace.peer_number(peer);
    let mut args: Vec<Arg> = Vec::new();
    args.push(Arg { name: "peer", value: Value::Number(id), domain: Some("PEERS") });
    assert(arg_views(args@) =~= seq![
        argument("peer"@, ValueView::Number(old(trace)@.peer_number(*peer)), Some("PEERS"@)),
    ]);
    trace.log(now, "handle_connect_request", args)
}

/// An inbound peer was made an outbound one.
pub fn repair_outbound_peers(
    trace: &mut Trace,
    now: u64,
    peer: &PeerId,
) -> (r: Vec<Record>)
    requires
        old(trace).wf(),
    ensures
        final(trace).wf(),
        (final(trace)@, record_views(r@)) == if old(trace)@.enabled {
            let next = old(trace)@.with_peer(*peer);
            next.logged(now, "repair_outbound_peers"@, seq![
                        argument("peer"@, ValueView::Number(old(trace)@.peer_number(*peer)), Some("PEERS"@)),
                    ])
        } else {
            (old(trace)@, Seq::empty())
        },
{
    if !trace.enabled {
        return no_records();
    }
    let id: u128 = trace.peer_number(peer);
    let mut args: Vec<Arg> = Vec::new();
    args.push(Arg { name: "peer", value: Value::Number(id), domain: Some("PEERS") });
    assert(arg_views(args@) =~= seq![
        argument("peer"@, ValueView::Number(old(trace)@.peer_number(*peer)), Some("PEERS"@)),
    ]);
    trace.log(now, "repair_outbound_peers", args)
}

/// A peer was selected as an outbound one, or none was found.
pub fn adjust_peers(
    trace: &mut Trace,
    now: u64,
    candidate: Option<&PeerId>,
) -> (r: Vec<Record>)
    requires
        old(trace).wf(),
    ensures
        final(trace).wf(),
        (final(trace)@, record_views(r@)) == if old(trace)@.enabled {
            let next = old(trace)@.with_optional_peer(candidate);
            next.logged(now, "adjust_peers"@, seq![
                        argument("candidate"@, ValueView::Number(old(trace)@.optional_peer_number(candidate)), Some("PEERS"@)),
                    ])
        } else {
            (old(trace)@, Seq::empty())
        },
{
    if !trace.enabled {
        return no_records();
    }
    let id: u128 = trace.optional_peer_number(candidate);
    let mut args: Vec<Arg> = Vec::new();
    args.push(Arg { name: "candidate", value: Value::Number(id), domain: Some("PEERS") });
    assert(arg_views(args@) =~= seq![
        argument("candidate"@, ValueView::Number(old(trace)@.optional_peer_number(candidate)), Some("PEERS"@)),
    ]);
    trace.log(now, "adjust_peers", args)
}

/// A peer has answered with peers.
pub fn handle_peers_response(
    trace: &mut Trace,
    now: u64,
    request_id: &RequestId,
) -> (r: Vec<Record>)
    requires
        old(trace).wf(),
    ensures
        final(trace).wf(),
        (final(trace)@, record_views(r@)) == if old(trace)@.enabled {
            let next = old(trace)@.with_request(*request_id);
            next.logged(now, "handle_peers_response"@, seq![
                        argument("request_id"@, ValueView::Number(old(trace)@.request_number(*request_id)), Some("REQ_IDS"@)),
                    ])
        } else {
            (old(trace)@, Seq::empty())
        },
{
    if !trace.enabled {
        return no_records();
    }
    let id: u128 = trace.request_number(request_id);
    let mut args: Vec<Arg> = Vec::new();
    args.push(Arg { name: "request_id", value: Value::Number(id), domain: Some("REQ_IDS") });
    assert(arg_views(args@) =~= seq![
        argument("request_id"@, ValueView::Number(old(trace)@.request_number(*request_id)), Some("REQ_IDS"@)),
    ]);
    trace.log(now, "handle_peers_response", args)
}

/// A request for peers has failed.
pub fn handle_failed_peers_request(
    trace: &mut Trace,
    now: u64,
    request_id: &RequestId,
) -> (r: Vec<Record>)
    requires
        old(trace).wf(),
    ensures
        final(trace).wf(),
        (final(trace)@, record_views(r@)) == if old(trace)@.enabled {
            let next = old(trace)@.with_request(*request_id);
            next.logged(now, "handle_failed_peers_request"@, seq![
                        argument("request_id"@, ValueView::Number(old(trace)@.request_number(*request_id)), Some("REQ_IDS"@)),
                    ])
        } else {
            (old(trace)@, Seq::empty())
        },
{
    if !trace.enabled {
        return no_records();
    }
    let id: u128 = trace.request_number(request_id);
    let mut args: Vec<Arg> = Vec::new();
    args.push(Arg { name: "request_id", value: Value::Number(id), domain: Some("REQ_IDS") });
    assert(arg_views(args@) =~= seq![
        argument("request_id"@, ValueView::Number(old(trace)@.request_number(*request_id)), Some("REQ_IDS"@)),
    ]);
    trace.log(now, "handle_failed_peers_request", args)
}

/// A peer has answered whether it is an outbound peer.
pub fn handle_connect_response(
    trace: &mut Trace,
    now: u64,
    request_id: &RequestId,
    accepted: bool,
) -> (r: Vec<Record>)
    requires
        old(trace).wf(),
    ensures
        final(trace).wf(),
        (final(trace)@, record_views(r@)) == if old(trace)@.enabled {
            let next = old(trace)@.with_request(*request_id);
            next.logged(now, "handle_connect_response"@, seq![
                        argument("request_id"@, ValueView::Number(old(trace)@.request_number(*request_id)), Some("REQ_IDS"@)),
                        argument("accepted"@, ValueView::Flag(accepted), None),
                    ])
        } else {
            (old(trace)@, Seq::empty())
        },
{
    if !trace.enabled {
        return no_records();
    }
    let id: u128 = trace.request_number(request_id);
    let mut args: Vec<Arg> = Vec::new();
    args.push(Arg { name: "request_id", value: Value::Number(id), domain: Some("REQ_IDS") });
    args.push(Arg { name: "accepted", value: Value::Flag(accepted), domain: None });
    assert(arg_views(args@) =~= seq![
        argument("request_id"@, ValueView::Number(old(trace)@.request_number(*request_id)), Some("REQ_IDS"@)),
        argument("accepted"@, ValueView::Flag(accepted), None),
    ]);
    trace.log(now, "handle_connect_response", args)
}

/// A request to be an outbound peer has failed.
pub fn handle_failed_connect_request(
    trace: &mut Trace,
    now: u64,
    request_id: &RequestId,
) -> (r: Vec<Record>)
    requires
        old(trace).wf(),
    ensures
        final(trace).wf(),
        (final(trace)@, record_views(r@)) == if old(trace)@.enabled {
            let next = old(trace)@.with_request(*request_id);
            next.logged(now, "handle_failed_connect_request"@, seq![
                        argument("request_id"@, ValueView::Number(old(trace)@.request_number(*request_id)), Some("REQ_IDS"@)),
                    ])
        } else {
            (old(trace)@, Seq::empty())
        },
{
    if !trace.enabled {
        return no_records();
    }
    let id: u128 = trace.request_number(request_id);
    let mut args: Vec<Arg> = Vec::new();
    args.push(Arg { name: "request_id", value: Value::Number(id), domain: Some("REQ_IDS") });
    assert(arg_views(args@) =~= seq![
        argument("request_id"@, ValueView::Number(old(trace)@.request_number(*request_id)), Some("REQ_IDS"@)),
    ]);
    trace.log(now, "handle_failed_connect_request", args)
}

/// A connection was made.
pub fn handle_connection(
    trace: &mut Trace,
    now: u64,
    peer: &PeerId,
    connection: ConnectionId,
    inbound: bool,
) -> (r: Vec<Record>)
    requires
        old(trace).wf(),
    ensures
        final(trace).wf(),
        (final(trace)@, record_views(r@)) == if old(trace)@.enabled {
            let next = old(trace)@.with_peer(*peer).with_connection(connection);
            next.logged(now, "handle_connection"@, seq![
                        argument("peer_id"@, ValueView::Number(old(trace)@.peer_number(*peer)), Some("PEERS"@)),
                        argument("connection_id"@, ValueView::Number(old(trace)@.connection_number(connection)), Some("CONNS"@)),
                        argument("inbound"@, ValueView::Flag(inbound), None),
                    ])
        } else {
            (old(trace)@, Seq::empty())
        },
{
    if !trace.enabled {
        return no_records();
    }
    let peer_number: u128 = trace.peer_number(peer);
    let id: u128 = trace.connection_number(connection);
    let mut args: Vec<Arg> = Vec::new();
    args.push(Arg { name: "peer_id", value: Value::Number(peer_number), domain: Some("PEERS") });
    args.push(Arg { name: "connection_id", value: Value::Number(id), domain: Some("CONNS") });
    args.push(Arg { name: "inbound", value: Value::Flag(inbound), domain: None });
    assert(arg_views(args@) =~= seq![
        argument("peer_id"@, ValueView::Number(old(trace)@.peer_number(*peer)), Some("PEERS"@)),
        argument("connection_id"@, ValueView::Number(old(trace)@.connection_number(connection)), Some("CONNS"@)),
        argument("inbound"@, ValueView::Flag(inbound), None),
    ]);
    trace.log(now, "handle_connection", args)
}

/// A connection was closed.
pub fn handle_closed_connection(
    trace: &mut Trace,
    now: u64,
    peer: &PeerId,
    connection: ConnectionId,
) -> (r: Vec<Record>)
    requires
        old(trace).wf(),
    ensures
        final(trace).wf(),
        (final(trace)@, record_views(r@)) == if old(trace)@.enabled {
            let next = old(trace)@.with_peer(*peer).with_connection(connection);
            next.logged(now, "handle_closed_connection"@, seq![
                        argument("peer_id"@, ValueView::Number(old(trace)@.peer_number(*peer)), Some("PEERS"@)),
                        argument("connection_id"@, ValueView::Number(old(trace)@.connection_number(connection)), Some("CONNS"@)),
                    ])
        } else {
            (old(trace)@, Seq::empty())
        },
{
    if !trace.enabled {
        return no_records();
    }
    let peer_number: u128 = trace.peer_number(peer);
    let id: u128 = trace.connection_number(connection);
    let mut args: Vec<Arg> = Vec::new();
    args.push(Arg { name: "peer_id", value: Value::Number(peer_number), domain: Some("PEERS") });
    args.push(Arg { name: "connection_id", value: Value::Number(id), domain: Some("CONNS") });
    assert(arg_views(args@) =~= seq![
        argument("peer_id"@, ValueView::Number(old(trace)@.peer_number(*peer)), Some("PEERS"@)),
        argument("connection_id"@, ValueView::Number(old(trace)@.connection_number(connection)), Some("CONNS"@)),
    ]);
    trace.log(now, "handle_closed_connection", args)
}

/// A dial has failed, for good or not.
pub fn handle_failed_connection(
    trace: &mut Trace,
    now: u64,
    connection: ConnectionId,
    fatal: bool,
) -> (r: Vec<Record>)
    requires
        old(trace).wf(),
    ensures
        final(trace).wf(),
        (final(trace)@, record_views(r@)) == if old(trace)@.enabled {
            let next = old(trace)@.with_connection(connection);
            next.logged(now, "handle_failed_connection"@, seq![
                        argument("connection_id"@, ValueView::Number(old(trace)@.connection_number(connection)), Some("CONNS"@)),
                        argument("fatal"@, ValueView::Flag(fatal), None),
                    ])
        } else {
            (old(trace)@, Seq::empty())
        },
{
    if !trace.enabled {
        return no_records();
    }
    let id: u128 = trace.connection_number(connection);
    let mut args: Vec<Arg> = Vec::new();
    args.push(Arg { name: "connection_id", value: Value::Number(id), domain: Some("CONNS") });
    args.push(Arg { name: "fatal", value: Value::Flag(fatal), domain: None });
    assert(arg_views(args@) =~= seq![
        argument("connection_id"@, ValueView::Number(old(trace)@.connection_number(connection)), Some("CONNS"@)),
        argument("fatal"@, ValueView::Flag(fatal), None),
    ]);
    trace.log(now, "handle_failed_connection", args)
}

/// A rate limiter was made; times are in milliseconds.
pub fn rate_limiter_new(
    trace: &mut Trace,
    now: u64,
    rate_window: u64,
    max_requests_per_window: u32,
    max_violations: u32,
    violation_expiry: u64,
) -> (r: Vec<Record>)
    requires
        old(trace).wf(),
    ensures
        final(trace).wf(),
        (final(trace)@, record_views(r@)) == if old(trace)@.enabled {
            old(trace)@.logged(now, "DiscoveryRateLimiternew"@, seq![
                        argument("max_requests"@, ValueView::Number(max_requests_per_window as int), None),
                        argument("max_violations"@, ValueView::Number(max_violations as int), None),
                        argument("rate_window"@, ValueView::Number(max_one(rate_window as int)), None),
                        argument("violation_expiry"@, ValueView::Number(max_one(violation_expiry as int)), None),
                    ])
        } else {
            (old(trace)@, Seq::empty())
        },
{
    if !trace.enabled {
        return no_records();
    }
    let mut args: Vec<Arg> = Vec::new();
    args.push(Arg { name: "max_requests", value: Value::Number(max_requests_per_window as u128), domain: None });
    args.push(Arg { name: "max_violations", value: Value::Number(max_violations as u128), domain: None });
    args.push(Arg { name: "rate_window", value: Value::Number(at_least_one(rate_window)), domain: None });
    args.push(Arg { name: "violation_expiry", value: Value::Number(at_least_one(violation_expiry)), domain: None });
    assert(arg_views(args@) =~= seq![
        argument("max_requests"@, ValueView::Number(max_requests_per_window as int), None),
        argument("max_violations"@, ValueView::Number(max_violations as int), None),
        argument("rate_window"@, ValueView::Number(max_one(rate_window as int)), None),
        argument("violation_expiry"@, ValueView::Number(max_one(violation_expiry as int)), None),
    ]);
    trace.log(now, "DiscoveryRateLimiternew", args)
}

/// A dial is done, or counts as done.
pub fn dial_register_done_on(
    trace: &mut Trace,
    now: u64,
    dial_data: &DialData,
    register_addrs: bool,
) -> (r: Vec<Record>)
    requires
        old(trace).wf(),
    ensures
        final(trace).wf(),
        (final(trace)@, record_views(r@)) == if old(trace)@.enabled {
            let next = old(trace)@.with_dial(*dial_data);
            next.logged(now, "Controllerdial_register_done_on"@, seq![
                        argument("dial_data"@, old(trace)@.dial_value(*dial_data), None),
                        argument("register_addrs"@, ValueView::Flag(register_addrs), None),
                    ])
        } else {
            (old(trace)@, Seq::empty())
        },
{
    if !trace.enabled {
        return no_records();
    }
    let dial = trace.dial_value(dial_data);
    let mut args: Vec<Arg> = Vec::new();
    args.push(Arg { name: "dial_data", value: dial, domain: None });
    args.push(Arg { name: "register_addrs", value: Value::Flag(register_addrs), domain: None });
    assert(arg_views(args@) =~= seq![
        argument("dial_data"@, old(trace)@.dial_value(*dial_data), None),
        argument("register_addrs"@, ValueView::Flag(register_addrs), None),
    ]);
    trace.log(now, "Controllerdial_register_done_on", args)
}

/// A dial was queued, after a delay in milliseconds if there is one.
pub fn dial_add_to_queue(
    trace: &mut Trace,
    now: u64,
    dial_data: &DialData,
    delay: Option<u64>,
) -> (r: Vec<Record>)
    requires
        old(trace).wf(),
    ensures
        final(trace).wf(),
        (final(trace)@, record_views(r@)) == if old(trace)@.enabled {
            let next = old(trace)@.with_dial(*dial_data);
            let wait = match delay {
                Some(d) => d as int,
                None => 0,
            };
            next.logged(now, "Actionadd_to_queue"@, seq![
                        argument("value"@, old(trace)@.dial_value(*dial_data), None),
                        argument("delay"@, ValueView::Number(wait), None),
                    ])
        } else {
            (old(trace)@, Seq::empty())
        },
{
    if !trace.enabled {
        return no_records();
    }
    let dial = trace.dial_value(dial_data);
    let wait: u64 = match delay {
        Some(d) => d,
        None => 0,
    };
    let mut args: Vec<Arg> = Vec::new();
    args.push(Arg { name: "value", value: dial, domain: None });
    args.push(Arg { name: "delay", value: Value::Number(wait as u128), domain: None });
    assert(arg_views(args@) =~= seq![
        argument("value"@, old(trace)@.dial_value(*dial_data), None),
        argument("delay"@, ValueView::Number(wait as int), None),
    ]);
    trace.log(now, "Actionadd_to_queue", args)
}

/// A peer and its addresses may be dialed again.
pub fn dial_clear_done_for_peer(
    trace: &mut Trace,
    now: u64,
    peer: &PeerId,
    listen_addrs: &Vec<Multiaddr>,
) -> (r: Vec<Record>)
    requires
        old(trace).wf(),
    ensures
        final(trace).wf(),
        (final(trace)@, record_views(r@)) == if old(trace)@.enabled {
            let next = old(trace)@.with_addresses(addresses(listen_addrs@)).with_peer(*peer);
            next.logged(now, "Controllerdial_clear_done_for_peer"@, seq![
                        argument("peer_id"@, ValueView::Number(old(trace)@.peer_number(*peer)), None),
                        argument("addrs"@, ValueView::Numbers(old(trace)@.address_numbers(addresses(listen_addrs@))), None),
                    ])
        } else {
            (old(trace)@, Seq::empty())
        },
{
    if !trace.enabled {
        return no_records();
    }
    let addrs = trace.address_numbers(listen_addrs);
    let id: u128 = trace.peer_number(peer);
    let mut args: Vec<Arg> = Vec::new();
    args.push(Arg { name: "peer_id", value: Value::Number(id), domain: None });
    args.push(Arg { name: "addrs", value: Value::Numbers(addrs), domain: None });
    assert(arg_views(args@) =~= seq![
        argument("peer_id"@, ValueView::Number(old(trace)@.peer_number(*peer)), None),
        argument("addrs"@, ValueView::Numbers(old(trace)@.address_numbers(addresses(listen_addrs@))), None),
    ]);
    trace.log(now, "Controllerdial_clear_done_for_peer", args)
}

/// A peer is dialed; no connection where it was dropped from the queue. Whether that was rejected.
pub fn dial_peer(
    trace: &mut Trace,
    now: u64,
    connection: Option<ConnectionId>,
    rejected: bool,
) -> (r: Vec<Record>)
    requires
        old(trace).wf(),
    ensures
        final(trace).wf(),
        (final(trace)@, record_views(r@)) == if old(trace)@.enabled {
            let next = old(trace)@.with_optional_connection(connection);
            let args = seq![
                        argument("connection_id"@, ValueView::Number(old(trace)@.optional_connection_number(connection)), Some("CONNS"@)),
                    ];
            next.logged(now, "dial_peer"@, with_outcome(args, rejected))
        } else {
            (old(trace)@, Seq::empty())
        },
{
    if !trace.enabled {
        return no_records();
    }
    let id: u128 = trace.optional_connection_number(connection);
    let mut args: Vec<Arg> = Vec::new();
    args.push(Arg { name: "connection_id", value: Value::Number(id), domain: Some("CONNS") });
    let ghost plain = arg_views(args@);
    assert(plain =~= seq![
        argument("connection_id"@, ValueView::Number(old(trace)@.optional_connection_number(connection)), Some("CONNS"@)),
    ]);
    add_outcome(&mut args, rejected);
    trace.log(now, "dial_peer", args)
}

/// A peer has identified itself. Whether that was rejected.
pub fn handle_new_peer(
    trace: &mut Trace,
    now: u64,
    connection: ConnectionId,
    listen_addrs: &Vec<Multiaddr>,
    rejected: bool,
) -> (r: Vec<Record>)
    requires
        old(trace).wf(),
    ensures
        final(trace).wf(),
        (final(trace)@, record_views(r@)) == if old(trace)@.enabled {
            let next = old(trace)@.with_connection(connection).with_addresses(addresses(listen_addrs@));
            let args = seq![
                        argument("connection_id"@, ValueView::Number(old(trace)@.connection_number(connection)), Some("CONNS"@)),
                        argument("listen_addrs"@, ValueView::Numbers(old(trace)@.address_numbers(addresses(listen_addrs@))), Some("ADDRS"@)),
                    ];
            next.logged(now, "handle_new_peer"@, with_outcome(args, rejected))
        } else {
            (old(trace)@, Seq::empty())
        },
{
    if !trace.enabled {
        return no_records();
    }
    let id: u128 = trace.connection_number(connection);
    let addrs = trace.address_numbers(listen_addrs);
    let mut args: Vec<Arg> = Vec::new();
    args.push(Arg { name: "connection_id", value: Value::Number(id), domain: Some("CONNS") });
    args.push(Arg { name: "listen_addrs", value: Value::Numbers(addrs), domain: Some("ADDRS") });
    let ghost plain = arg_views(args@);
    assert(plain =~= seq![
        argument("connection_id"@, ValueView::Number(old(trace)@.connection_number(connection)), Some("CONNS"@)),
        argument("listen_addrs"@, ValueView::Numbers(old(trace)@.address_numbers(addresses(listen_addrs@))), Some("ADDRS"@)),
    ]);
    add_outcome(&mut args, rejected);
    trace.log(now, "handle_new_peer", args)
}

/// A connection is to be closed. Whether that was rejected.
pub fn close_connection(
    trace: &mut Trace,
    now: u64,
    peer: &PeerId,
    connection: ConnectionId,
    rejected: bool,
) -> (r: Vec<Record>)
    requires
        old(trace).wf(),
    ensures
        final(trace).wf(),
        (final(trace)@, record_views(r@)) == if old(trace)@.enabled {
            let next = old(trace)@.with_peer(*peer).with_connection(connection);
            let args = seq![
                        argument("peer_id"@, ValueView::Number(old(trace)@.peer_number(*peer)), Some("PEERS"@)),
                        argument("connection_id"@, ValueView::Number(old(trace)@.connection_number(connection)), Some("CONNS"@)),
                    ];
            next.logged(now, "close_connection"@, with_outcome(args, rejected))
        } else {
            (old(trace)@, Seq::empty())
        },
{
    if !trace.enabled {
        return no_records();
    }
    let peer_number: u128 = trace.peer_number(peer);
    let id: u128 = trace.connection_number(connection);
    let mut args: Vec<Arg> = Vec::new();
    args.push(Arg { name: "peer_id", value: Value::Number(peer_number), domain: Some("PEERS") });
    args.push(Arg { name: "connection_id", value: Value::Number(id), domain: Some("CONNS") });
    let ghost plain = arg_views(args@);
    assert(plain =~= seq![
        argument("peer_id"@, ValueView::Number(old(trace)@.peer_number(*peer)), Some("PEERS"@)),
        argument("connection_id"@, ValueView::Number(old(trace)@.connection_number(connection)), Some("CONNS"@)),
    ]);
    add_outcome(&mut args, rejected);
    trace.log(now, "close_connection", args)
}

/// A peer is asked for peers. Whether that was rejected.
pub fn peers_request_peer(
    trace: &mut Trace,
    now: u64,
    request_id: Option<&RequestId>,
    rejected: bool,
) -> (r: Vec<Record>)
    requires
        old(trace).wf(),
    ensures
        final(trace).wf(),
        (final(trace)@, record_views(r@)) == if old(trace)@.enabled {
            let next = old(trace)@.with_optional_request(request_id);
            let args = seq![
                        argument("request_id"@, ValueView::Number(old(trace)@.optional_request_number(request_id)), Some("REQ_IDS"@)),
                    ];
            next.logged(now, "peers_request_peer"@, with_outcome(args, rejected))
        } else {
            (old(trace)@, Seq::empty())
        },
{
    if !trace.enabled {
        return no_records();
    }
    let id: u128 = trace.optional_request_number(request_id);
    let mut args: Vec<Arg> = Vec::new();
    args.push(Arg { name: "request_id", value: Value::Number(id), domain: Some("REQ_IDS") });
    let ghost plain = arg_views(args@);
    assert(plain =~= seq![
        argument("request_id"@, ValueView::Number(old(trace)@.optional_request_number(request_id)), Some("REQ_IDS"@)),
    ]);
    add_outcome(&mut args, rejected);
    trace.log(now, "peers_request_peer", args)
}

/// A peer is asked to be an outbound peer. Whether that was rejected.
pub fn connect_request_peer(
    trace: &mut Trace,
    now: u64,
    request_id: Option<&RequestId>,
    rejected: bool,
) -> (r: Vec<Record>)
    requires
        old(trace).wf(),
    ensures
        final(trace).wf(),
        (final(trace)@, record_views(r@)) == if old(trace)@.enabled {
            let next = old(trace)@.with_optional_request(request_id);
            let args = seq![
                        argument("request_id"@, ValueView::Number(old(trace)@.optional_request_number(request_id)), Some("REQ_IDS"@)),
                    ];
            next.logged(now, "connect_request_peer"@, with_outcome(args, rejected))
        } else {
            (old(trace)@, Seq::empty())
        },
{
    if !trace.enabled {
        return no_records();
    }
    let id: u128 = trace.optional_request_number(request_id);
    let mut args: Vec<Arg> = Vec::new();
    args.push(Arg { name: "request_id", value: Value::Number(id), domain: Some("REQ_IDS") });
    let ghost plain = arg_views(args@);
    assert(plain =~= seq![
        argument("request_id"@, ValueView::Number(old(trace)@.optional_request_number(request_id)), Some("REQ_IDS"@)),
    ]);
    add_outcome(&mut args, rejected);
    trace.log(now, "connect_request_peer", args)
}

} // verus!
