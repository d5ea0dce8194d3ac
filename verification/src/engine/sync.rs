//! The sync actor: the requests it keeps track of, and what it does for each
//! message and for each effect of the sync core.

use vstd::arithmetic::power2::{lemma_pow2_strictly_increases, pow2};
use vstd::prelude::*;

use crate::engine::event::{NetworkEvent, OutboundFailureReason, PeerId, RequestId, Status};
use crate::ident::{Ident, OrdMap};
use crate::network::channel::Channel;

verus! {

/// The delay before the first retry after a local failure, in milliseconds.
pub const LOCAL_TRANSIENT_RETRY_BASE: u64 = 100;

/// The longest delay before a retry after a local failure, in milliseconds.
pub const LOCAL_TRANSIENT_RETRY_CAP: u64 = 1000;

/// The delay before the given attempt: it doubles with each attempt, up to the
/// cap.
pub open spec fn retry_delay(attempt: nat) -> nat {
    let shift = if attempt <= 1 {
        0
    } else if attempt >= 17 {
        16
    } else {
        (attempt - 1) as nat
    };
    let delay = LOCAL_TRANSIENT_RETRY_BASE as nat * pow2(shift);
    if delay < LOCAL_TRANSIENT_RETRY_CAP {
        delay
    } else {
        LOCAL_TRANSIENT_RETRY_CAP as nat
    }
}

proof fn lemma_pow2_small()
    ensures
        pow2(0) == 1,
        pow2(1) == 2,
        pow2(2) == 4,
        pow2(3) == 8,
        pow2(4) == 16,
        pow2(16) == 65536,
{
    vstd::arithmetic::power2::lemma2_to64();
}

/// The delay in milliseconds before a synced value is requested again after
/// the given number of local failures.
pub fn local_transient_retry_delay(attempt: u32) -> (r: u64)
    ensures
        r == retry_delay(attempt as nat),
{
    let shift: u32 = if attempt <= 1 {
        0
    } else if attempt >= 17 {
        16
    } else {
        attempt - 1
    };
    let mut factor: u64 = 1;
    let mut i: u32 = 0;
    proof {
        lemma_pow2_small();
    }
    while i < shift
        invariant
            i <= shift <= 16,
            factor == pow2(i as nat),
            factor <= 65536,
            pow2(16) == 65536,
        decreases shift - i,
    {
        proof {
            vstd::arithmetic::power2::lemma_pow2_unfold((i + 1) as nat);
            if i + 1 < 16 {
                lemma_pow2_strictly_increases((i + 1) as nat, 16);
            }
        }
        factor = factor * 2;
        i = i + 1;
    }
    let delay: u64 = LOCAL_TRANSIENT_RETRY_BASE * factor;
    if delay < LOCAL_TRANSIENT_RETRY_CAP {
        delay
    } else {
        LOCAL_TRANSIENT_RETRY_CAP
    }
}

/// The delays grow with each attempt and stay between the base and the cap,
/// which is reached at the fifth attempt.
pub proof fn law_retry_delay_grows_to_cap(a: nat, b: nat)
    requires
        a <= b,
    ensures
        retry_delay(a) <= retry_delay(b),
        LOCAL_TRANSIENT_RETRY_BASE <= retry_delay(a) <= LOCAL_TRANSIENT_RETRY_CAP,
        retry_delay(a) < LOCAL_TRANSIENT_RETRY_CAP <==> a < 5,
{
    lemma_pow2_small();
    lemma_retry_delay_values(a);
    lemma_retry_delay_values(b);
}

/// The delays, one by one.
pub proof fn lemma_retry_delay_values(a: nat)
    ensures
        retry_delay(a) == if a <= 1 {
            100
        } else if a == 2 {
            200
        } else if a == 3 {
            400
        } else if a == 4 {
            800
        } else {
            1000nat
        },
{
    lemma_pow2_small();
    if a >= 17 {
    } else if a >= 5 {
        if a - 1 > 4 {
            lemma_pow2_strictly_increases(4, (a - 1) as nat);
        }
    }
}

/// What the sync core is configured with.
#[derive(Clone, Copy, Debug, PartialEq, Eq, Structural)]
pub struct SyncConfig {
    /// How many requests are sent in parallel.
    pub parallel_requests: usize,
    /// How many heights a request asks for.
    pub batch_size: usize,
    /// The largest response, in bytes.
    pub max_response_size: usize,
}

impl SyncConfig {
    /// The number of parallel requests, at least one.
    pub open spec fn parallel(self) -> nat {
        if self.parallel_requests == 0 {
            1
        } else {
            self.parallel_requests as nat
        }
    }

    /// The number of heights of a request, at least one.
    pub open spec fn batch(self) -> nat {
        if self.batch_size == 0 {
            1
        } else {
            self.batch_size as nat
        }
    }

    /// How many heights ahead of consensus requests may start.
    pub open spec fn window(self) -> nat {
        if self.parallel() * self.batch() <= usize::MAX {
            self.parallel() * self.batch()
        } else {
            usize::MAX as nat
        }
    }

    /// The number of heights of a request, at least one.
    pub fn effective_batch_size(&self) -> (r: usize)
        ensures
            r == self.batch(),
    {
        if self.batch_size == 0 {
            1
        } else {
            self.batch_size
        }
    }

    /// How many heights ahead of consensus requests may start.
    pub fn read_ahead_window(&self) -> (r: usize)
        ensures
            r == self.window(),
    {
        let parallel: usize = if self.parallel_requests == 0 {
            1
        } else {
            self.parallel_requests
        };
        let batch: usize = self.effective_batch_size();
        match parallel.checked_mul(batch) {
            Some(n) => n,
            None => usize::MAX,
        }
    }
}

/// How many heights the queue of values ahead of consensus has room for: twice
/// the read-ahead window, which covers a batch that starts at its end.
pub fn sync_queue_capacity(config: &SyncConfig) -> (r: usize)
    ensures
        r == if 2 * config.window() <= usize::MAX {
            2 * config.window()
        } else {
            usize::MAX as nat
        },
        r >= config.window() + config.batch() - 1 || r == usize::MAX,
{
    let window: usize = config.read_ahead_window();
    proof {
        lemma_window_covers_batch(*config);
    }
    match window.checked_mul(2) {
        Some(n) => n,
        None => usize::MAX,
    }
}

proof fn lemma_window_covers_batch(config: SyncConfig)
    ensures
        config.window() >= config.batch(),
{
    let p = config.parallel() as int;
    let b = config.batch() as int;
    assert(p * b >= b) by (nonlinear_arith)
        requires
            p >= 1,
            b >= 1,
    ;
}

/// The parameters of the actor.
#[derive(Clone, Copy, Debug, PartialEq, Eq, Structural)]
pub struct Params {
    /// How often peers are told the status of this node, in milliseconds. With
    /// 0 they are told right after each decision.
    pub status_update_interval: u64,
    /// How long a request may take, in milliseconds.
    pub request_timeout: u64,
}

impl Default for Params {
    /// A status update every five seconds, ten seconds for a request.
    fn default() -> (r: Self)
        ensures
            r.status_update_interval == 5000,
            r.request_timeout == 10000,
    {
        Params { status_update_interval: 5000, request_timeout: 10000 }
    }
}

/// When peers are told the status of this node.
#[derive(Clone, Copy, Debug, PartialEq, Eq, Structural)]
pub enum StatusUpdateMode {
    /// At regular intervals.
    Interval,
    /// Right after each decision.
    Eager,
}

/// When peers are told the status of this node.
pub fn status_update_mode(interval: u64) -> (r: StatusUpdateMode)
    ensures
        r == if interval == 0 {
            StatusUpdateMode::Eager
        } else {
            StatusUpdateMode::Interval
        },
{
    if interval == 0 {
        StatusUpdateMode::Eager
    } else {
        StatusUpdateMode::Interval
    }
}

/// The sum of the first `n` sizes.
pub open spec fn size_sum(sizes: Seq<Option<u64>>, n: int) -> nat
    decreases n,
{
    if n <= 0 {
        0
    } else {
        size_sum(sizes, n - 1) + match sizes[n - 1] {
            Some(s) => s as nat,
            None => 0,
        }
    }
}

/// Whether the first `n` values are what fits into `max`: their sizes are
/// known and together no more than `max`, and the next value, if any, would
/// be too much or has no known size.
pub open spec fn fits(sizes: Seq<Option<u64>>, max: u64, n: int) -> bool {
    &&& 0 <= n <= sizes.len()
    &&& forall|i: int| 0 <= i < n ==> (#[trigger] sizes[i]) is Some
    &&& size_sum(sizes, n) <= max
    &&& n < sizes.len() ==> (sizes[n] is None || size_sum(sizes, n + 1) > max)
}

/// Keep the values that fit into a response of `max` bytes, given the encoded
/// size of each; none where it could not be determined.
pub fn truncate_values_to_size_limit<T>(values: &mut Vec<T>, sizes: &Vec<Option<u64>>, max: u64)
    requires
        old(values)@.len() == sizes@.len(),
    ensures
        fits(sizes@, max, final(values)@.len() as int),
        final(values)@ == old(values)@.subrange(0, final(values)@.len() as int),
{
    let mut current: u64 = 0;
    let mut keep: usize = 0;
    while keep < sizes.len()
        invariant
            keep <= sizes@.len(),
            current == size_sum(sizes@, keep as int),
            current <= max,
            forall|i: int| 0 <= i < keep ==> (#[trigger] sizes@[i]) is Some,
        ensures
            fits(sizes@, max, keep as int),
        decreases sizes@.len() - keep,
    {
        match sizes[keep] {
            None => {
                break;
            },
            Some(size) => {
                if size > max - current {
                    break;
                }
                current = current + size;
            },
        }
        keep = keep + 1;
    }
    values.truncate(keep);
}

/// At most one number of values fits.
pub proof fn law_truncation_is_determined(sizes: Seq<Option<u64>>, max: u64, m: int, n: int)
    requires
        fits(sizes, max, m),
        fits(sizes, max, n),
    ensures
        m == n,
{
    if m < n {
        lemma_size_sum_grows(sizes, m + 1, n);
        assert(sizes[m] is Some);
    } else if n < m {
        lemma_size_sum_grows(sizes, n + 1, m);
        assert(sizes[n] is Some);
    }
}

proof fn lemma_size_sum_grows(sizes: Seq<Option<u64>>, m: int, n: int)
    requires
        0 <= m <= n,
    ensures
        size_sum(sizes, m) <= size_sum(sizes, n),
    decreases n - m,
{
    if m < n {
        lemma_size_sum_grows(sizes, m, n - 1);
    }
}

/// The timers of the actor.
#[derive(Clone, Copy, Debug, PartialEq, Eq)]
pub enum SyncTimeout {
    /// For a request that was sent.
    Request(RequestId),
    /// For a request of a peer that waits on the application.
    InboundRequest(RequestId),
    /// Before a value at this height is requested again.
    Retry(u64),
}

/// Why a request of a peer was not answered.
#[derive(Clone, Copy, Debug, PartialEq, Eq, Structural)]
pub enum InboundFailureReason {
    /// The peer disconnected.
    RequesterDisconnected,
    /// The application took too long.
    HostStallTimeout,
}

/// A request that was sent.
pub struct InflightRequest<P> {
    /// The peer it was sent to.
    pub peer_id: PeerId,
    /// The request.
    pub request: P,
}

/// What the sync core is given to process.
pub enum SyncInput<P> {
    /// Tell peers the status of this node.
    SendStatusUpdate,
    /// A peer disconnected.
    PeerDisconnected(PeerId),
    /// The status of a peer.
    Status(PeerId, Status),
    /// A request of a peer.
    ValueRequest(RequestId, PeerId, P),
    /// The response to a request, where it could be decoded.
    ValueResponse(RequestId, PeerId, Option<P>),
    /// A request failed.
    SyncRequestFailed(RequestId, PeerId, P, OutboundFailureReason),
    /// A request timed out.
    SyncRequestTimedOut(RequestId, PeerId, P),
    /// Consensus started a height; whether it was a restart.
    StartedHeight(u64, bool),
    /// Consensus decided a height.
    Decided(u64),
    /// Decided values of a range of heights, for a request of a peer.
    GotDecidedValues(RequestId, P, Vec<P>),
    /// A value at this height was the fault of a peer.
    PeerFault(PeerId, u64),
    /// A value at this height failed for a local reason.
    LocalTransientError(u64),
}

/// Work outside the actor.
pub enum SyncAction<P> {
    /// Let the core process an input. Where that fails, the rest is not done.
    Process(SyncInput<P>),
    /// Start a timer, in milliseconds.
    StartTimer(SyncTimeout, u64),
    /// Cancel a timer.
    CancelTimer(SyncTimeout),
    /// Drop a request of a peer from the network actor.
    NetworkCancelInboundRequest(RequestId),
    /// Cancel a request that was sent.
    NetworkCancelRequest(RequestId),
    /// Respond to a request of a peer.
    NetworkResponse(RequestId, P),
    /// Send a request to a peer. The request goes on with
    /// [`State::request_sent`].
    NetworkRequest(PeerId, P),
    /// Broadcast that this node has decided up to this height, with the lowest
    /// height of which the application has the value.
    BroadcastStatus(u64),
    /// Ask the application for the decided values of a range, for a request.
    HostGetDecidedValues(RequestId, P),
    /// Give a value to consensus.
    ForwardToConsensus(P),
    /// Keep a value, which a request brought, for when consensus is at its
    /// height.
    QueuePush(u64, RequestId, P),
    /// Drop all kept values.
    QueueClear,
    /// Drop the kept values that this request brought, and update the metrics
    /// of the kept values where there were any.
    QueueDropRequest(RequestId),
    /// Give the values kept for this height to consensus, in order, until one
    /// cannot be given, and drop those for lower heights.
    QueueForward(u64),
    /// Update the metrics of the kept values.
    UpdateQueueMetrics,
    /// A request of a peer was not answered.
    CountInboundFailure(RequestId, InboundFailureReason),
    /// A value failed for a local reason.
    CountLocalTransientError,
}

/// The messages of the actor.
pub enum Msg<P> {
    /// Time to tell peers the status of this node.
    Tick,
    /// An event of the network actor.
    NetworkEvent(NetworkEvent<P>),
    /// Consensus decided a height.
    Decided(u64),
    /// Consensus started a height; whether it was a restart.
    StartedHeight(u64, bool),
    /// The application has the decided values of a range for a request, with
    /// the encoded size of each.
    GotDecidedValues(RequestId, P, Vec<P>, Vec<Option<u64>>),
    /// A timer has elapsed; none where it was cancelled in the meantime.
    TimeoutElapsed(Option<SyncTimeout>),
    /// A value at this height was the fault of a peer. The request that the
    /// core knows for the height.
    PeerFault(PeerId, u64, Option<RequestId>),
    /// A value at this height failed for a local reason.
    LocalTransientError(u64),
}

/// The state of the actor.
pub struct State<P> {
    /// How often values at a height failed in a row for a local reason.
    pub local_transient_attempts: OrdMap<u64, u32>,
    /// The requests that were sent.
    pub inflight: OrdMap<RequestId, InflightRequest<P>>,
    /// The pending requests of peers.
    pub inbound: OrdMap<RequestId, PeerId>,
    /// When peers are told the status of this node.
    pub status_update_mode: StatusUpdateMode,
}

/// The state of the actor, as a value.
#[verifier::reject_recursive_types(P)]
pub struct StateView<P> {
    pub attempts: Map<u64, u32>,
    pub inflight: Map<RequestId, InflightRequest<P>>,
    pub inbound: Map<RequestId, PeerId>,
    pub mode: StatusUpdateMode,
}

impl<P> View for State<P> {
    type V = StateView<P>;

    open spec fn view(&self) -> StateView<P> {
        StateView {
            attempts: self.local_transient_attempts@,
            inflight: self.inflight@,
            inbound: self.inbound@,
            mode: self.status_update_mode,
        }
    }
}

/// The requests of `entries` that were sent to `peer`.
pub open spec fn sent_to<P>(entries: Seq<(RequestId, InflightRequest<P>)>, peer: PeerId) -> Seq<RequestId>
    decreases entries.len(),
{
    if entries.len() == 0 {
        Seq::empty()
    } else {
        let rest = sent_to(entries.drop_last(), peer);
        if entries.last().1.peer_id == peer {
            rest.push(entries.last().0)
        } else {
            rest
        }
    }
}

/// The requests of `entries` that `peer` sent.
pub open spec fn sent_by(entries: Seq<(RequestId, PeerId)>, peer: PeerId) -> Seq<RequestId>
    decreases entries.len(),
{
    if entries.len() == 0 {
        Seq::empty()
    } else {
        let rest = sent_by(entries.drop_last(), peer);
        if entries.last().1 == peer {
            rest.push(entries.last().0)
        } else {
            rest
        }
    }
}

/// The heights of `entries` up to `height`.
pub open spec fn heights_up_to(entries: Seq<(u64, u32)>, height: u64) -> Seq<u64>
    decreases entries.len(),
{
    if entries.len() == 0 {
        Seq::empty()
    } else {
        let rest = heights_up_to(entries.drop_last(), height);
        if entries.last().0 <= height {
            rest.push(entries.last().0)
        } else {
            rest
        }
    }
}

/// The steps that drop the requests `ids` of a disconnected peer.
pub open spec fn drop_inbound_steps<P>(ids: Seq<RequestId>) -> Seq<SyncAction<P>>
    decreases ids.len(),
{
    if ids.len() == 0 {
        Seq::empty()
    } else {
        let id = ids.last();
        drop_inbound_steps::<P>(ids.drop_last()) + seq![
            SyncAction::CancelTimer(SyncTimeout::InboundRequest(id)),
            SyncAction::NetworkCancelInboundRequest(id),
            SyncAction::CountInboundFailure(id, InboundFailureReason::RequesterDisconnected),
        ]
    }
}

impl<P> StateView<P> {
    /// The state without the requests to and from `peer`.
    pub open spec fn without_peer(self, peer: PeerId) -> StateView<P> {
        StateView {
            inflight: self.inflight.remove_keys(
                Set::new(
                    |id: RequestId| self.inflight.contains_key(id) && self.inflight[id].peer_id == peer,
                ),
            ),
            inbound: self.inbound.remove_keys(
                Set::new(|id: RequestId| self.inbound.contains_key(id) && self.inbound[id] == peer),
            ),
            ..self
        }
    }

    /// The state after an event of the network actor, other than that a peer
    /// disconnected, and what follows from it.
    pub open spec fn network_event(self, params: Params, event: NetworkEvent<P>) -> (
        StateView<P>,
        Seq<SyncAction<P>>,
    ) {
        match event {
            NetworkEvent::Status(peer, status) => (
                self,
                seq![SyncAction::Process(SyncInput::Status(peer, status))],
            ),
            NetworkEvent::SyncRequest(id, from, request) => (
                StateView { inbound: self.inbound.insert(id, from), ..self },
                seq![
                    SyncAction::StartTimer(SyncTimeout::InboundRequest(id), params.request_timeout),
                    SyncAction::Process(SyncInput::ValueRequest(id, from, request)),
                ],
            ),
            NetworkEvent::SyncResponse(id, peer, response) => if self.inflight.contains_key(id) {
                (
                    StateView { inflight: self.inflight.remove(id), ..self },
                    seq![
                        SyncAction::CancelTimer(SyncTimeout::Request(id)),
                        SyncAction::Process(SyncInput::ValueResponse(id, peer, response)),
                    ],
                )
            } else {
                (self, seq![SyncAction::CancelTimer(SyncTimeout::Request(id))])
            },
            NetworkEvent::SyncRequestFailed(id, _, reason) => if self.inflight.contains_key(id) {
                (
                    StateView { inflight: self.inflight.remove(id), ..self },
                    seq![
                        SyncAction::CancelTimer(SyncTimeout::Request(id)),
                        SyncAction::Process(
                            SyncInput::SyncRequestFailed(
                                id,
                                self.inflight[id].peer_id,
                                self.inflight[id].request,
                                reason,
                            ),
                        ),
                    ],
                )
            } else {
                (self, seq![SyncAction::CancelTimer(SyncTimeout::Request(id))])
            },
            NetworkEvent::PeerSubscribed(_, Channel::Sync) => (
                self,
                seq![SyncAction::Process(SyncInput::SendStatusUpdate)],
            ),
            _ => (self, Seq::empty()),
        }
    }

    /// The state after a timer has elapsed, and what follows from it.
    pub open spec fn elapsed(self, timeout: SyncTimeout) -> (StateView<P>, Seq<SyncAction<P>>) {
        match timeout {
            SyncTimeout::Request(id) => if self.inflight.contains_key(id) {
                (
                    StateView { inflight: self.inflight.remove(id), ..self },
                    seq![
                        SyncAction::Process(
                            SyncInput::SyncRequestTimedOut(
                                id,
                                self.inflight[id].peer_id,
                                self.inflight[id].request,
                            ),
                        ),
                    ],
                )
            } else {
                (self, Seq::empty())
            },
            SyncTimeout::InboundRequest(id) => if self.inbound.contains_key(id) {
                (
                    StateView { inbound: self.inbound.remove(id), ..self },
                    seq![
                        SyncAction::NetworkCancelInboundRequest(id),
                        SyncAction::CountInboundFailure(id, InboundFailureReason::HostStallTimeout),
                    ],
                )
            } else {
                (self, Seq::empty())
            },
            SyncTimeout::Retry(height) => (
                self,
                seq![SyncAction::Process(SyncInput::LocalTransientError(height))],
            ),
        }
    }

    /// How often values at `height` have failed, counting one more failure.
    pub open spec fn next_attempt(self, height: u64) -> u32 {
        if !self.attempts.contains_key(height) {
            1
        } else if self.attempts[height] == u32::MAX {
            u32::MAX
        } else {
            (self.attempts[height] + 1) as u32
        }
    }
}

impl<P: Ident> State<P> {
    /// The maps are well formed.
    pub open spec fn wf(self) -> bool {
        self.local_transient_attempts.wf() && self.inflight.wf() && self.inbound.wf()
    }

    /// The state of an actor that has just started.
    pub fn new(params: &Params) -> (r: Self)
        ensures
            r.wf(),
            r@ == (StateView::<P> {
                attempts: Map::empty(),
                inflight: Map::empty(),
                inbound: Map::empty(),
                mode: if params.status_update_interval == 0 {
                    StatusUpdateMode::Eager
                } else {
                    StatusUpdateMode::Interval
                },
            }),
    {
        State {
            local_transient_attempts: OrdMap::new(),
            inflight: OrdMap::new(),
            inbound: OrdMap::new(),
            status_update_mode: status_update_mode(params.status_update_interval),
        }
    }

    /// Handle `msg`.
    pub fn handle_msg(&mut self, params: &Params, config: &SyncConfig, msg: Msg<P>) -> (r: Vec<SyncAction<P>>)
        requires
            old(self).wf(),
            msg matches Msg::GotDecidedValues(_, _, values, sizes) ==> values@.len() == sizes@.len(),
        ensures
            final(self).wf(),
            match msg {
                Msg::Tick => final(self)@ == old(self)@ && r@ == seq![
                    SyncAction::<P>::Process(SyncInput::SendStatusUpdate),
                ],
                Msg::NetworkEvent(NetworkEvent::PeerDisconnected(peer)) => {
                    &&& final(self)@ == old(self)@.without_peer(peer)
                    &&& r@ == sent_to(old(self).inflight.entries@, peer).map_values(
                        |id: RequestId| SyncAction::<P>::CancelTimer(SyncTimeout::Request(id)),
                    ) + drop_inbound_steps(sent_by(old(self).inbound.entries@, peer)) + seq![
                        SyncAction::Process(SyncInput::PeerDisconnected(peer)),
                    ]
                },
                Msg::NetworkEvent(event) => (final(self)@, r@) == old(self)@.network_event(
                    *params,
                    event,
                ),
                Msg::Decided(height) => final(self)@ == old(self)@ && r@ == seq![
                    SyncAction::<P>::Process(SyncInput::Decided(height)),
                ],
                Msg::StartedHeight(height, is_restart) => {
                    &&& final(self)@ == old(self)@
                    &&& r@ == (if is_restart {
                        seq![SyncAction::<P>::QueueClear, SyncAction::UpdateQueueMetrics]
                    } else {
                        Seq::empty()
                    }) + seq![
                        SyncAction::Process(SyncInput::StartedHeight(height, is_restart)),
                        SyncAction::QueueForward(height),
                        SyncAction::UpdateQueueMetrics,
                    ]
                },
                Msg::GotDecidedValues(id, range, values, sizes) => {
                    &&& final(self)@ == old(self)@
                    &&& if old(self)@.inbound.contains_key(id) {
                        &&& r@.len() == 1
                        &&& r@[0] matches SyncAction::Process(SyncInput::GotDecidedValues(i, g, kept))
                        &&& i == id
                        &&& g == range
                        &&& fits(sizes@, config.max_response_size as u64, kept@.len() as int)
                        &&& kept@ == values@.subrange(0, kept@.len() as int)
                    } else {
                        r@.len() == 0
                    }
                },
                Msg::TimeoutElapsed(None) => final(self)@ == old(self)@ && r@.len() == 0,
                Msg::TimeoutElapsed(Some(timeout)) => (final(self)@, r@) == old(self)@.elapsed(timeout),
                Msg::PeerFault(peer, height, request) => {
                    &&& final(self)@ == old(self)@
                    &&& r@ == (match request {
                        Some(id) => seq![SyncAction::<P>::QueueDropRequest(id)],
                        None => Seq::empty(),
                    }) + seq![SyncAction::Process(SyncInput::PeerFault(peer, height))]
                },
                Msg::LocalTransientError(height) => {
                    let attempt = old(self)@.next_attempt(height);
                    &&& final(self)@ == (StateView {
                        attempts: old(self)@.attempts.insert(height, attempt),
                        ..old(self)@
                    })
                    &&& r@ == seq![
                        SyncAction::<P>::CountLocalTransientError,
                        SyncAction::StartTimer(
                            SyncTimeout::Retry(height),
                            retry_delay(attempt as nat) as u64,
                        ),
                    ]
                },
            },
    {
        let mut actions: Vec<SyncAction<P>> = Vec::new();
        match msg {
            Msg::Tick => {
                actions.push(SyncAction::Process(SyncInput::SendStatusUpdate));
                actions
            },
            Msg::NetworkEvent(event) => match event {
                NetworkEvent::PeerDisconnected(peer) => self.peer_disconnected(peer),
                event => self.handle_network_event(params, event),
            },
            Msg::Decided(height) => {
                actions.push(SyncAction::Process(SyncInput::Decided(height)));
                actions
            },
            Msg::StartedHeight(height, is_restart) => {
                if is_restart {
                    actions.push(SyncAction::QueueClear);
                    actions.push(SyncAction::UpdateQueueMetrics);
                }
                actions.push(SyncAction::Process(SyncInput::StartedHeight(height, is_restart)));
                actions.push(SyncAction::QueueForward(height));
                actions.push(SyncAction::UpdateQueueMetrics);
                assert(actions@ =~= (if is_restart {
                    seq![SyncAction::<P>::QueueClear, SyncAction::UpdateQueueMetrics]
                } else {
                    Seq::empty()
                }) + seq![
                    SyncAction::Process(SyncInput::StartedHeight(height, is_restart)),
                    SyncAction::QueueForward(height),
                    SyncAction::UpdateQueueMetrics,
                ]);
                actions
            },
            Msg::GotDecidedValues(id, range, values, sizes) => {
                if !self.inbound.contains_key(&id) {
                    return actions;
                }
                let mut kept = values;
                truncate_values_to_size_limit(&mut kept, &sizes, config.max_response_size as u64);
                actions.push(SyncAction::Process(SyncInput::GotDecidedValues(id, range, kept)));
                actions
            },
            Msg::TimeoutElapsed(elapsed) => match elapsed {
                None => actions,
                Some(timeout) => self.timeout_elapsed(timeout),
            },
            Msg::PeerFault(peer, height, request) => {
                if let Some(id) = request {
                    actions.push(SyncAction::QueueDropRequest(id));
                }
                actions.push(SyncAction::Process(SyncInput::PeerFault(peer, height)));
                assert(actions@ =~= (match request {
                    Some(id) => seq![SyncAction::<P>::QueueDropRequest(id)],
                    None => Seq::empty(),
                }) + seq![SyncAction::Process(SyncInput::PeerFault(peer, height))]);
                actions
            },
            Msg::LocalTransientError(height) => {
                let attempt: u32 = match self.local_transient_attempts.get(&height) {
                    None => 1,
                    Some(n) => if *n == u32::MAX {
                        u32::MAX
                    } else {
                        *n + 1
                    },
                };
                self.local_transient_attempts.insert(height, attempt);
                actions.push(SyncAction::CountLocalTransientError);
                actions.push(
                    SyncAction::StartTimer(
                        SyncTimeout::Retry(height),
                        local_transient_retry_delay(attempt),
                    ),
                );
                actions
            },
        }
    }

    /// A decision was processed: forget the failures at its height and below,
    /// and tell peers the status of this node where that is done eagerly.
    pub fn decided(&mut self, height: u64) -> (r: Vec<SyncAction<P>>)
        requires
            old(self).wf(),
        ensures
            final(self).wf(),
            final(self)@ == (StateView {
                attempts: old(self)@.attempts.remove_keys(
                    Set::new(|h: u64| old(self)@.attempts.contains_key(h) && h <= height),
                ),
                ..old(self)@
            }),
            r@ == heights_up_to(old(self).local_transient_attempts.entries@, height).map_values(
                |h: u64| SyncAction::<P>::CancelTimer(SyncTimeout::Retry(h)),
            ) + (if old(self).status_update_mode == StatusUpdateMode::Eager {
                seq![SyncAction::<P>::Process(SyncInput::SendStatusUpdate)]
            } else {
                Seq::empty()
            }),
    {
        let ghost entries = self.local_transient_attempts.entries@;
        let ghost before = self.local_transient_attempts;
        let mut actions: Vec<SyncAction<P>> = Vec::new();
        let mut reset: Vec<u64> = Vec::new();
        let mut i: usize = 0;
        let ghost cancel = |h: u64| SyncAction::<P>::CancelTimer(SyncTimeout::Retry(h));
        assert(entries.subrange(0, 0) =~= Seq::<(u64, u32)>::empty());
        assert(actions@ =~= heights_up_to(entries.subrange(0, 0), height).map_values(cancel));
        while i < self.local_transient_attempts.entries.len()
            invariant
                *self == *old(self),
                entries == self.local_transient_attempts.entries@,
                cancel == (|h: u64| SyncAction::<P>::CancelTimer(SyncTimeout::Retry(h))),
                i <= entries.len(),
                reset@ == heights_up_to(entries.subrange(0, i as int), height),
                actions@ == reset@.map_values(cancel),
            decreases entries.len() - i,
        {
            let h: u64 = self.local_transient_attempts.entries[i].0;
            proof {
                assert(entries.subrange(0, i + 1).drop_last() =~= entries.subrange(0, i as int));
            }
            if h <= height {
                let ghost r0 = reset@;
                reset.push(h);
                actions.push(SyncAction::CancelTimer(SyncTimeout::Retry(h)));
                assert(actions@ =~= reset@.map_values(cancel));
            }
            i = i + 1;
        }
        assert(entries.subrange(0, i as int) =~= entries);
        self.local_transient_attempts.remove_all(&reset);
        proof {
            let keys = Set::new(|h: u64| before@.contains_key(h) && h <= height);
            lemma_heights_up_to(before, height);
            assert(before@.remove_keys(reset@.to_set()) =~= before@.remove_keys(keys)) by {
                assert forall|h: u64| before@.contains_key(h) implies reset@.to_set().contains(h)
                    == keys.contains(h) by {
                    assert(reset@.contains(h) == (before.has(h) && h <= height));
                }
            }
        }
        let ghost cancels = actions@;
        if self.status_update_mode == StatusUpdateMode::Eager {
            actions.push(SyncAction::Process(SyncInput::SendStatusUpdate));
        }
        assert(actions@ =~= cancels + (if old(self).status_update_mode == StatusUpdateMode::Eager {
            seq![SyncAction::<P>::Process(SyncInput::SendStatusUpdate)]
        } else {
            Seq::empty()
        }));
        actions
    }

    /// Handle that a peer disconnected: what was sent to it is no longer waited
    /// for, and what it sent is not answered.
    fn peer_disconnected(&mut self, peer: PeerId) -> (r: Vec<SyncAction<P>>)
        requires
            old(self).wf(),
        ensures
            final(self).wf(),
            final(self)@ == old(self)@.without_peer(peer),
            r@ == sent_to(old(self).inflight.entries@, peer).map_values(
                |id: RequestId| SyncAction::<P>::CancelTimer(SyncTimeout::Request(id)),
            ) + drop_inbound_steps(sent_by(old(self).inbound.entries@, peer)) + seq![
                SyncAction::Process(SyncInput::PeerDisconnected(peer)),
            ],
    {
        let ghost before = *self;
        let ghost entries = self.inflight.entries@;
        let ghost cancel = |id: RequestId| SyncAction::<P>::CancelTimer(SyncTimeout::Request(id));
        let mut actions: Vec<SyncAction<P>> = Vec::new();
        let mut ids: Vec<RequestId> = Vec::new();
        let mut i: usize = 0;
        assert(entries.subrange(0, 0) =~= Seq::<(RequestId, InflightRequest<P>)>::empty());
        assert(actions@ =~= ids@.map_values(cancel));
        while i < self.inflight.entries.len()
            invariant
                *self == before,
                entries == self.inflight.entries@,
                cancel == (|id: RequestId|
                    SyncAction::<P>::CancelTimer(SyncTimeout::Request(id))),
                i <= entries.len(),
                ids@ == sent_to(entries.subrange(0, i as int), peer),
                actions@ == ids@.map_values(cancel),
            decreases entries.len() - i,
        {
            proof {
                assert(entries.subrange(0, i + 1).drop_last() =~= entries.subrange(0, i as int));
            }
            if self.inflight.entries[i].1.peer_id.same(&peer) {
                let id = self.inflight.entries[i].0;
                ids.push(id);
                actions.push(SyncAction::CancelTimer(SyncTimeout::Request(id)));
                assert(actions@ =~= ids@.map_values(cancel));
            }
            i = i + 1;
        }
        assert(entries.subrange(0, i as int) =~= entries);
        self.inflight.remove_all(&ids);
        let ghost first = actions@;
        let inbound_ids = drain_inbound_requests_for_peer(&mut self.inbound, peer);
        let mut j: usize = 0;
        assert(inbound_ids@.subrange(0, 0) =~= Seq::<RequestId>::empty());
        assert(actions@ =~= first + drop_inbound_steps(inbound_ids@.subrange(0, 0)));
        while j < inbound_ids.len()
            invariant
                j <= inbound_ids@.len(),
                actions@ == first + drop_inbound_steps(inbound_ids@.subrange(0, j as int)),
            decreases inbound_ids@.len() - j,
        {
            let id = inbound_ids[j];
            actions.push(SyncAction::CancelTimer(SyncTimeout::InboundRequest(id)));
            actions.push(SyncAction::NetworkCancelInboundRequest(id));
            actions.push(
                SyncAction::CountInboundFailure(id, InboundFailureReason::RequesterDisconnected),
            );
            proof {
                let next = inbound_ids@.subrange(0, j + 1);
                assert(next.drop_last() =~= inbound_ids@.subrange(0, j as int));
                assert(actions@ =~= first + drop_inbound_steps(next));
            }
            j = j + 1;
        }
        assert(inbound_ids@.subrange(0, j as int) =~= inbound_ids@);
        actions.push(SyncAction::Process(SyncInput::PeerDisconnected(peer)));
        proof {
            let m = before.inflight@;
            let keys = Set::new(|id: RequestId| m.contains_key(id) && m[id].peer_id == peer);
            lemma_sent_to(before.inflight, peer);
            assert(m.remove_keys(ids@.to_set()) =~= m.remove_keys(keys)) by {
                assert forall|id: RequestId| m.contains_key(id) implies ids@.to_set().contains(id)
                    == keys.contains(id) by {
                    assert(ids@.contains(id) == (m.contains_key(id) && m[id].peer_id == peer));
                }
            }
            assert(self@.inflight =~= before@.without_peer(peer).inflight);
            assert(self@.inbound =~= before@.without_peer(peer).inbound);
            assert(actions@ =~= first + drop_inbound_steps(inbound_ids@) + seq![
                SyncAction::Process(SyncInput::PeerDisconnected(peer)),
            ]);
        }
        actions
    }

    /// Handle an event of the network actor, other than that a peer
    /// disconnected.
    fn handle_network_event(&mut self, params: &Params, event: NetworkEvent<P>) -> (r: Vec<SyncAction<P>>)
        requires
            old(self).wf(),
        ensures
            final(self).wf(),
            (final(self)@, r@) == old(self)@.network_event(*params, event),
    {
        let ghost want = self@.network_event(*params, event);
        let mut actions: Vec<SyncAction<P>> = Vec::new();
        match event {
            NetworkEvent::Status(peer, status) => {
                actions.push(SyncAction::Process(SyncInput::Status(peer, status)));
            },
            NetworkEvent::SyncRequest(id, from, request) => {
                self.inbound.insert(id, from);
                actions.push(
                    SyncAction::StartTimer(SyncTimeout::InboundRequest(id), params.request_timeout),
                );
                actions.push(SyncAction::Process(SyncInput::ValueRequest(id, from, request)));
            },
            NetworkEvent::SyncResponse(id, peer, response) => {
                actions.push(SyncAction::CancelTimer(SyncTimeout::Request(id)));
                if self.inflight.remove(&id).is_some() {
                    actions.push(SyncAction::Process(SyncInput::ValueResponse(id, peer, response)));
                }
                assert(self@.inflight =~= want.0.inflight);
            },
            NetworkEvent::SyncRequestFailed(id, _, reason) => {
                actions.push(SyncAction::CancelTimer(SyncTimeout::Request(id)));
                if let Some(inflight) = self.inflight.remove(&id) {
                    actions.push(
                        SyncAction::Process(
                            SyncInput::SyncRequestFailed(
                                id,
                                inflight.peer_id,
                                inflight.request,
                                reason,
                            ),
                        ),
                    );
                }
                assert(self@.inflight =~= want.0.inflight);
            },
            NetworkEvent::PeerSubscribed(_, channel) => {
                if channel == Channel::Sync {
                    actions.push(SyncAction::Process(SyncInput::SendStatusUpdate));
                }
            },
            _ => {},
        }
        assert(actions@ =~= want.1);
        assert(self@ == want.0);
        actions
    }

    /// Handle that a timer has elapsed.
    fn timeout_elapsed(&mut self, timeout: SyncTimeout) -> (r: Vec<SyncAction<P>>)
        requires
            old(self).wf(),
        ensures
            final(self).wf(),
            (final(self)@, r@) == old(self)@.elapsed(timeout),
    {
        let ghost want = self@.elapsed(timeout);
        let mut actions: Vec<SyncAction<P>> = Vec::new();
        match timeout {
            SyncTimeout::Request(id) => {
                if let Some(inflight) = self.inflight.remove(&id) {
                    actions.push(
                        SyncAction::Process(
                            SyncInput::SyncRequestTimedOut(id, inflight.peer_id, inflight.request),
                        ),
                    );
                }
                assert(self@.inflight =~= want.0.inflight);
            },
            SyncTimeout::InboundRequest(id) => {
                if self.inbound.remove(&id).is_some() {
                    actions.push(SyncAction::NetworkCancelInboundRequest(id));
                    actions.push(
                        SyncAction::CountInboundFailure(id, InboundFailureReason::HostStallTimeout),
                    );
                }
                assert(self@.inbound =~= want.0.inbound);
            },
            SyncTimeout::Retry(height) => {
                actions.push(SyncAction::Process(SyncInput::LocalTransientError(height)));
            },
        }
        assert(actions@ =~= want.1);
        assert(self@ == want.0);
        actions
    }

    /// Handle an effect of the sync core.
    pub fn handle_effect(&mut self, consensus_height: u64, effect: SyncEffect<P>) -> (r: Vec<SyncAction<P>>)
        requires
            old(self).wf(),
        ensures
            final(self).wf(),
            final(self)@ == (match effect {
                SyncEffect::SendValueResponse(id, _) => StateView {
                    inbound: old(self)@.inbound.remove(id),
                    ..old(self)@
                },
                _ => old(self)@,
            }),
            r@ == effect_actions(consensus_height, effect),
    {
        let mut actions: Vec<SyncAction<P>> = Vec::new();
        match effect {
            SyncEffect::BroadcastStatus(height) => {
                actions.push(SyncAction::BroadcastStatus(height));
            },
            SyncEffect::SendValueRequest(peer, request) => {
                actions.push(SyncAction::NetworkRequest(peer, request));
            },
            SyncEffect::SendValueResponse(id, response) => {
                self.inbound.remove(&id);
                actions.push(SyncAction::CancelTimer(SyncTimeout::InboundRequest(id)));
                actions.push(SyncAction::NetworkResponse(id, response));
            },
            SyncEffect::GetDecidedValues(id, range) => {
                actions.push(SyncAction::HostGetDecidedValues(id, range));
            },
            SyncEffect::ProcessValueResponse(_, id, values) => {
                return process_value_response(consensus_height, id, values);
            },
            SyncEffect::CancelValueRequest(id) => {
                actions.push(SyncAction::NetworkCancelRequest(id));
            },
        }
        assert(actions@ =~= effect_actions(consensus_height, effect));
        actions
    }

    /// Take note of a request that was sent, where it was, and start its timer.
    pub fn request_sent(&mut self, params: &Params, sent: Option<RequestId>, peer_id: PeerId, request: P) -> (r:
        Vec<SyncAction<P>>)
        requires
            old(self).wf(),
        ensures
            final(self).wf(),
            match sent {
                Some(id) => {
                    &&& final(self)@ == (StateView {
                        inflight: old(self)@.inflight.insert(id, InflightRequest { peer_id, request }),
                        ..old(self)@
                    })
                    &&& r@ == seq![
                        SyncAction::<P>::StartTimer(
                            SyncTimeout::Request(id),
                            params.request_timeout,
                        ),
                    ]
                },
                None => final(self)@ == old(self)@ && r@.len() == 0,
            },
    {
        let mut actions: Vec<SyncAction<P>> = Vec::new();
        if let Some(id) = sent {
            actions.push(SyncAction::StartTimer(SyncTimeout::Request(id), params.request_timeout));
            self.inflight.insert(id, InflightRequest { peer_id, request });
        }
        actions
    }
}

/// What the sync core asks for.
pub enum SyncEffect<P> {
    /// Tell peers that this node has decided up to this height.
    BroadcastStatus(u64),
    /// Send a request to a peer.
    SendValueRequest(PeerId, P),
    /// Respond to a request of a peer.
    SendValueResponse(RequestId, P),
    /// Get the decided values of a range, for a request of a peer.
    GetDecidedValues(RequestId, P),
    /// Process the values that a peer sent for a request, each with its height.
    ProcessValueResponse(PeerId, RequestId, Vec<(u64, P)>),
    /// Cancel a request.
    CancelValueRequest(RequestId),
}

/// What becomes of the values of a response: those for decided heights are
/// ignored, those for later heights are kept, and that for the current height
/// goes to consensus.
pub open spec fn value_actions<P>(consensus_height: u64, id: RequestId, values: Seq<(u64, P)>) -> Seq<
    SyncAction<P>,
>
    decreases values.len(),
{
    if values.len() == 0 {
        Seq::empty()
    } else {
        let rest = value_actions(consensus_height, id, values.drop_last());
        let (height, value) = values.last();
        if height < consensus_height {
            rest
        } else if height > consensus_height {
            rest.push(SyncAction::QueuePush(height, id, value))
        } else {
            rest.push(SyncAction::ForwardToConsensus(value))
        }
    }
}

/// What is done for an effect of the sync core.
pub open spec fn effect_actions<P>(consensus_height: u64, effect: SyncEffect<P>) -> Seq<SyncAction<P>> {
    match effect {
        SyncEffect::BroadcastStatus(height) => seq![SyncAction::BroadcastStatus(height)],
        SyncEffect::SendValueRequest(peer, request) => seq![SyncAction::NetworkRequest(peer, request)],
        SyncEffect::SendValueResponse(id, response) => seq![
            SyncAction::CancelTimer(SyncTimeout::InboundRequest(id)),
            SyncAction::NetworkResponse(id, response),
        ],
        SyncEffect::GetDecidedValues(id, range) => seq![SyncAction::HostGetDecidedValues(id, range)],
        SyncEffect::ProcessValueResponse(_, id, values) => value_actions(
            consensus_height,
            id,
            values@,
        ).push(SyncAction::UpdateQueueMetrics),
        SyncEffect::CancelValueRequest(id) => seq![SyncAction::NetworkCancelRequest(id)],
    }
}

/// What becomes of the values that a peer sent for a request.
pub fn process_value_response<P: Ident>(consensus_height: u64, id: RequestId, values: Vec<(u64, P)>) -> (r:
    Vec<SyncAction<P>>)
    ensures
        r@ == value_actions(consensus_height, id, values@).push(SyncAction::UpdateQueueMetrics),
{
    let mut actions: Vec<SyncAction<P>> = Vec::new();
    let mut i: usize = 0;
    assert(values@.subrange(0, 0) =~= Seq::<(u64, P)>::empty());
    assert(actions@ =~= value_actions(consensus_height, id, values@.subrange(0, 0)));
    while i < values.len()
        invariant
            i <= values@.len(),
            actions@ == value_actions(consensus_height, id, values@.subrange(0, i as int)),
        decreases values@.len() - i,
    {
        proof {
            assert(values@.subrange(0, i + 1).drop_last() =~= values@.subrange(0, i as int));
        }
        let height: u64 = values[i].0;
        if height > consensus_height {
            actions.push(SyncAction::QueuePush(height, id, values[i].1.dup()));
        } else if height == consensus_height {
            actions.push(SyncAction::ForwardToConsensus(values[i].1.dup()));
        }
        i = i + 1;
    }
    assert(values@.subrange(0, i as int) =~= values@);
    actions.push(SyncAction::UpdateQueueMetrics);
    actions
}

/// Take out and return the pending requests that `peer_id` sent.
pub fn drain_inbound_requests_for_peer(inbound: &mut OrdMap<RequestId, PeerId>, peer_id: PeerId) -> (r: Vec<
    RequestId,
>)
    requires
        old(inbound).wf(),
    ensures
        final(inbound).wf(),
        r@ == sent_by(old(inbound).entries@, peer_id),
        forall|id: RequestId| #[trigger]
            r@.contains(id) <==> old(inbound)@.contains_key(id) && old(inbound)@[id] == peer_id,
        final(inbound)@ == old(inbound)@.remove_keys(
            Set::new(
                |id: RequestId| old(inbound)@.contains_key(id) && old(inbound)@[id] == peer_id,
            ),
        ),
{
    let ghost before = *inbound;
    let ghost entries = inbound.entries@;
    let mut ids: Vec<RequestId> = Vec::new();
    let mut i: usize = 0;
    assert(entries.subrange(0, 0) =~= Seq::<(RequestId, PeerId)>::empty());
    while i < inbound.entries.len()
        invariant
            *inbound == before,
            entries == inbound.entries@,
            i <= entries.len(),
            ids@ == sent_by(entries.subrange(0, i as int), peer_id),
        decreases entries.len() - i,
    {
        proof {
            assert(entries.subrange(0, i + 1).drop_last() =~= entries.subrange(0, i as int));
        }
        if inbound.entries[i].1.same(&peer_id) {
            ids.push(inbound.entries[i].0);
        }
        i = i + 1;
    }
    assert(entries.subrange(0, i as int) =~= entries);
    inbound.remove_all(&ids);
    proof {
        let m = before@;
        let keys = Set::new(|id: RequestId| m.contains_key(id) && m[id] == peer_id);
        lemma_sent_by(before, peer_id);
        assert(m.remove_keys(ids@.to_set()) =~= m.remove_keys(keys)) by {
            assert forall|id: RequestId| m.contains_key(id) implies ids@.to_set().contains(id)
                == keys.contains(id) by {
                assert(ids@.contains(id) == (m.contains_key(id) && m[id] == peer_id));
            }
        }
    }
    ids
}

proof fn lemma_sent_by_seq(entries: Seq<(RequestId, PeerId)>, peer: PeerId, id: RequestId)
    ensures
        sent_by(entries, peer).contains(id) == exists|i: int|
            0 <= i < entries.len() && (#[trigger] entries[i]).0 == id && entries[i].1 == peer,
    decreases entries.len(),
{
    if entries.len() > 0 {
        let rest = entries.drop_last();
        lemma_sent_by_seq(rest, peer, id);
        let s = sent_by(rest, peer);
        let t = sent_by(entries, peer);
        if s.contains(id) {
            let i = choose|i: int|
                0 <= i < rest.len() && (#[trigger] rest[i]).0 == id && rest[i].1 == peer;
            assert(entries[i] == rest[i]);
            let k = choose|k: int| 0 <= k < s.len() && s[k] == id;
            assert(t[k] == id);
        }
        if entries.last().0 == id && entries.last().1 == peer {
            assert(t[s.len() as int] == id);
            assert(entries[entries.len() - 1].0 == id);
        }
        if t.contains(id) && !s.contains(id) {
            let k = choose|k: int| 0 <= k < t.len() && t[k] == id;
            if k < s.len() {
                assert(s[k] == id);
            }
            assert(entries[entries.len() - 1].0 == id);
        }
        if exists|i: int|
            0 <= i < entries.len() && (#[trigger] entries[i]).0 == id && entries[i].1 == peer {
            let i = choose|i: int|
                0 <= i < entries.len() && (#[trigger] entries[i]).0 == id && entries[i].1 == peer;
            if i < rest.len() {
                assert(rest[i] == entries[i]);
            }
        }
    }
}

/// The requests that a peer sent are those of the map.
pub proof fn lemma_sent_by(m: OrdMap<RequestId, PeerId>, peer: PeerId)
    requires
        m.wf(),
    ensures
        forall|id: RequestId| #[trigger]
            sent_by(m.entries@, peer).contains(id) == (m@.contains_key(id) && m@[id] == peer),
{
    assert forall|id: RequestId| #[trigger] sent_by(m.entries@, peer).contains(id) == (m@.contains_key(
        id,
    ) && m@[id] == peer) by {
        lemma_sent_by_seq(m.entries@, peer, id);
        if sent_by(m.entries@, peer).contains(id) {
            let i = choose|i: int|
                0 <= i < m.entries@.len() && (#[trigger] m.entries@[i]).0 == id && m.entries@[i].1
                    == peer;
            m.lemma_entry(i);
        }
        if m@.contains_key(id) && m@[id] == peer {
            let i = m.index_of(id);
            assert(m.entries@[i].0 == id);
        }
    }
}

proof fn lemma_sent_to_seq<P>(entries: Seq<(RequestId, InflightRequest<P>)>, peer: PeerId, id: RequestId)
    ensures
        sent_to(entries, peer).contains(id) == exists|i: int|
            0 <= i < entries.len() && (#[trigger] entries[i]).0 == id && entries[i].1.peer_id == peer,
    decreases entries.len(),
{
    if entries.len() > 0 {
        let rest = entries.drop_last();
        lemma_sent_to_seq(rest, peer, id);
        let s = sent_to(rest, peer);
        let t = sent_to(entries, peer);
        if s.contains(id) {
            let i = choose|i: int|
                0 <= i < rest.len() && (#[trigger] rest[i]).0 == id && rest[i].1.peer_id == peer;
            assert(entries[i] == rest[i]);
            let k = choose|k: int| 0 <= k < s.len() && s[k] == id;
            assert(t[k] == id);
        }
        if entries.last().0 == id && entries.last().1.peer_id == peer {
            assert(t[s.len() as int] == id);
            assert(entries[entries.len() - 1].0 == id);
        }
        if t.contains(id) && !s.contains(id) {
            let k = choose|k: int| 0 <= k < t.len() && t[k] == id;
            if k < s.len() {
                assert(s[k] == id);
            }
            assert(entries[entries.len() - 1].0 == id);
        }
        if exists|i: int|
            0 <= i < entries.len() && (#[trigger] entries[i]).0 == id && entries[i].1.peer_id == peer {
            let i = choose|i: int|
                0 <= i < entries.len() && (#[trigger] entries[i]).0 == id && entries[i].1.peer_id
                    == peer;
            if i < rest.len() {
                assert(rest[i] == entries[i]);
            }
        }
    }
}

/// The requests that were sent to a peer are those of the map.
pub proof fn lemma_sent_to<P>(m: OrdMap<RequestId, InflightRequest<P>>, peer: PeerId)
    requires
        m.wf(),
    ensures
        forall|id: RequestId| #[trigger]
            sent_to(m.entries@, peer).contains(id) == (m@.contains_key(id) && m@[id].peer_id == peer),
{
    assert forall|id: RequestId| #[trigger] sent_to(m.entries@, peer).contains(id) == (m@.contains_key(
        id,
    ) && m@[id].peer_id == peer) by {
        lemma_sent_to_seq(m.entries@, peer, id);
        if sent_to(m.entries@, peer).contains(id) {
            let i = choose|i: int|
                0 <= i < m.entries@.len() && (#[trigger] m.entries@[i]).0 == id
                    && m.entries@[i].1.peer_id == peer;
            m.lemma_entry(i);
        }
        if m@.contains_key(id) && m@[id].peer_id == peer {
            let i = m.index_of(id);
            assert(m.entries@[i].0 == id);
        }
    }
}

proof fn lemma_heights_up_to_seq(entries: Seq<(u64, u32)>, height: u64, h: u64)
    ensures
        heights_up_to(entries, height).contains(h) == (h <= height && exists|i: int|
            0 <= i < entries.len() && (#[trigger] entries[i]).0 == h),
    decreases entries.len(),
{
    if entries.len() > 0 {
        let rest = entries.drop_last();
        lemma_heights_up_to_seq(rest, height, h);
        let s = heights_up_to(rest, height);
        let t = heights_up_to(entries, height);
        if s.contains(h) {
            let i = choose|i: int| 0 <= i < rest.len() && (#[trigger] rest[i]).0 == h;
            assert(entries[i] == rest[i]);
            let k = choose|k: int| 0 <= k < s.len() && s[k] == h;
            assert(t[k] == h);
        }
        if entries.last().0 == h && h <= height {
            assert(t[s.len() as int] == h);
            assert(entries[entries.len() - 1].0 == h);
        }
        if t.contains(h) && !s.contains(h) {
            let k = choose|k: int| 0 <= k < t.len() && t[k] == h;
            if k < s.len() {
                assert(s[k] == h);
            }
            assert(entries[entries.len() - 1].0 == h);
        }
        if exists|i: int| 0 <= i < entries.len() && (#[trigger] entries[i]).0 == h {
            let i = choose|i: int| 0 <= i < entries.len() && (#[trigger] entries[i]).0 == h;
            if i < rest.len() {
                assert(rest[i] == entries[i]);
            }
        }
    }
}

/// The heights up to one are those of the map.
pub proof fn lemma_heights_up_to(m: OrdMap<u64, u32>, height: u64)
    ensures
        forall|h: u64| #[trigger]
            heights_up_to(m.entries@, height).contains(h) == (m.has(h) && h <= height),
{
    assert forall|h: u64| #[trigger] heights_up_to(m.entries@, height).contains(h) == (m.has(h) && h
        <= height) by {
        lemma_heights_up_to_seq(m.entries@, height, h);
    }
}

/// A request is answered or failed once: after its response, its failure or
/// its timeout, a further one has no effect on the core.
pub proof fn law_request_settled_once<P>(s: StateView<P>, params: Params, id: RequestId)
    requires
        !s.inflight.contains_key(id),
    ensures
        forall|peer: PeerId, response: Option<P>|
            s.network_event(params, NetworkEvent::SyncResponse(id, peer, response)) == (
                s,
                seq![SyncAction::<P>::CancelTimer(SyncTimeout::Request(id))],
            ),
        forall|peer: PeerId, reason: OutboundFailureReason|
            s.network_event(params, NetworkEvent::SyncRequestFailed(id, peer, reason)) == (
                s,
                seq![SyncAction::<P>::CancelTimer(SyncTimeout::Request(id))],
            ),
        s.elapsed(SyncTimeout::Request(id)) == (s, Seq::<SyncAction<P>>::empty()),
{
}

/// After a peer disconnected nothing waits for it and nothing it asked for is
/// pending, while the requests to and from other peers stay.
pub proof fn law_disconnect_clears_only_that_peer<P>(s: StateView<P>, peer: PeerId, id: RequestId)
    ensures
        ({
            let t = s.without_peer(peer);
            &&& t.inflight.contains_key(id) <==> s.inflight.contains_key(id)
                && s.inflight[id].peer_id != peer
            &&& t.inbound.contains_key(id) <==> s.inbound.contains_key(id) && s.inbound[id] != peer
            &&& t.inflight.contains_key(id) ==> t.inflight[id] == s.inflight[id]
            &&& t.inbound.contains_key(id) ==> t.inbound[id] == s.inbound[id]
        }),
{
}

} // verus!
