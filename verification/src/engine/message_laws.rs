//! What the consensus actor does for each message, call by call.

use vstd::prelude::*;

use crate::engine::consensus::{
    should_end_waiting_for_sync, span_height, span_round, Action, Config, CoreInput, HandleError,
    Handled, HeightParams, Msg, OnFailure, Phase, StageView, State, Step, WalEntry,
};
use crate::engine::effect_laws::{does, is_news, no_news, only_news};
use crate::engine::event::{NetworkEvent, PeerId};
use crate::ident::Ident;
use crate::types::{Round, Timeout, ValueOrigin};

verus! {

/// Whether `input` is what `msg` brings for the core: of the same kind, with the
/// same content.
pub open spec fn brings<P>(msg: Msg<P>, input: CoreInput<P>) -> bool {
    match input {
        CoreInput::Vote(p) => msg matches Msg::NetworkEvent(NetworkEvent::Vote(_, q)) && p == q,
        CoreInput::Proposal(p) => msg matches Msg::NetworkEvent(NetworkEvent::Proposal(_, q)) && p == q,
        CoreInput::PolkaCertificate(p) => msg matches Msg::NetworkEvent(
            NetworkEvent::PolkaCertificate(_, q),
        ) && p == q,
        CoreInput::RoundCertificate(p) => msg matches Msg::NetworkEvent(
            NetworkEvent::RoundCertificate(_, q),
        ) && p == q,
        CoreInput::TimeoutElapsed(t) => msg matches Msg::TimeoutElapsed(Some(u)) && t == u,
        CoreInput::Propose(p) => msg matches Msg::ProposeValue(q) && p == q,
        CoreInput::ProposedValue(p, o) => msg matches Msg::ReceivedProposedValue(q, n) && p == q && o
            == n,
        CoreInput::SyncValueResponse(p) => msg matches Msg::ProcessSyncResponse(q) && p == q,
        _ => false,
    }
}

/// Whether the core processes `input`, and nothing else, in `steps`, and a failure
/// of that stops the actor.
pub open spec fn only_input<P>(steps: Seq<Step<P>>, input: CoreInput<P>) -> bool {
    exists|i: int|
        0 <= i < steps.len() && (#[trigger] steps[i]).action == Action::Process(input)
            && steps[i].on_failure == OnFailure::Stop && forall|j: int|
            0 <= j < steps.len() && j != i ==> !((#[trigger] steps[j]).action is Process)
}

/// Whether the core processes nothing in `steps`.
pub open spec fn no_input<P>(steps: Seq<Step<P>>) -> bool {
    forall|j: int| 0 <= j < steps.len() ==> !((#[trigger] steps[j]).action is Process)
}

/// The core processes what a message brings for it: exactly that, once, whatever
/// the actor is in the middle of. A failure stops the actor. The state of the
/// actor does not change.
pub proof fn law_core_gets_what_is_brought<P: Ident>(
    state: &mut State<P>,
    config: &Config,
    msg: Msg<P>,
    r: Result<Vec<Step<P>>, HandleError>,
    input: CoreInput<P>,
)
    requires
        call_ensures(State::<P>::handle_msg, (state, config, msg), r),
        brings(msg, input),
    ensures
        r matches Ok(steps) && only_input(steps@, input),
        final(state)@ == old(state)@,
{
    let steps = r->Ok_0@;
    if msg is ProposeValue || msg is ProcessSyncResponse {
        assert(steps[0].action == Action::Process(input));
    } else if msg matches Msg::NetworkEvent(NetworkEvent::PolkaCertificate(_, _)) {
        assert(steps[0].action == Action::Process(input));
    } else if msg matches Msg::NetworkEvent(NetworkEvent::RoundCertificate(_, _)) {
        assert(steps[0].action == Action::Process(input));
    } else {
        assert(steps[1].action == Action::Process(input));
    }
}

/// The core processes nothing for a message that brings nothing for it, but for
/// the end of the wait for sync.
pub proof fn law_core_gets_nothing_else<P: Ident>(
    state: &mut State<P>,
    config: &Config,
    msg: Msg<P>,
    r: Result<Vec<Step<P>>, HandleError>,
)
    requires
        call_ensures(State::<P>::handle_msg, (state, config, msg), r),
        forall|input: CoreInput<P>| !brings(msg, input),
        !(msg is WalReplayDelayElapsed),
    ensures
        r matches Ok(steps) ==> no_input(steps@),
{
    match msg {
        Msg::NetworkEvent(NetworkEvent::Vote(_, p)) => {
            assert(brings(msg, CoreInput::Vote(p)));
        },
        Msg::NetworkEvent(NetworkEvent::Proposal(_, p)) => {
            assert(brings(msg, CoreInput::Proposal(p)));
        },
        Msg::NetworkEvent(NetworkEvent::PolkaCertificate(_, p)) => {
            assert(brings(msg, CoreInput::PolkaCertificate(p)));
        },
        Msg::NetworkEvent(NetworkEvent::RoundCertificate(_, p)) => {
            assert(brings(msg, CoreInput::RoundCertificate(p)));
        },
        Msg::TimeoutElapsed(Some(t)) => {
            assert(brings(msg, CoreInput::TimeoutElapsed(t)));
        },
        Msg::ProposeValue(p) => {
            assert(brings(msg, CoreInput::Propose(p)));
        },
        Msg::ReceivedProposedValue(p, o) => {
            assert(brings(msg, CoreInput::ProposedValue(p, o)));
        },
        Msg::ProcessSyncResponse(p) => {
            assert(brings(msg, CoreInput::SyncValueResponse(p)));
        },
        _ => {},
    }
}

/// What reaches a running actor is handled, not kept: the core processes what it
/// brings.
pub proof fn law_running_actor_feeds_the_core<P: Ident>(
    state: &mut State<P>,
    config: &Config,
    msg: Msg<P>,
    r: Result<Handled<P>, HandleError>,
    input: CoreInput<P>,
)
    requires
        call_ensures(State::<P>::handle, (state, config, msg), r),
        old(state).phase == Phase::Running,
        brings(msg, input),
    ensures
        r matches Ok(Handled::Steps(steps)) && only_input(steps@, input),
        final(state)@ == old(state)@,
{
    let steps = r->Ok_0->Steps_0@;
    if msg is ProposeValue || msg is ProcessSyncResponse {
        assert(steps[0].action == Action::Process(input));
    } else if msg matches Msg::NetworkEvent(NetworkEvent::PolkaCertificate(_, _)) {
        assert(steps[0].action == Action::Process(input));
    } else if msg matches Msg::NetworkEvent(NetworkEvent::RoundCertificate(_, _)) {
        assert(steps[0].action == Action::Process(input));
    } else {
        assert(steps[1].action == Action::Process(input));
    }
}

/// Subscribers are told of a vote, a proposal or a proposed value that was
/// received, and of a value that is proposed, once each; certificates, timeouts
/// and values from sync are no news.
pub proof fn law_subscribers_are_told_of_messages<P: Ident>(
    state: &mut State<P>,
    config: &Config,
    msg: Msg<P>,
    r: Result<Vec<Step<P>>, HandleError>,
    input: CoreInput<P>,
)
    requires
        call_ensures(State::<P>::handle_msg, (state, config, msg), r),
        brings(msg, input),
    ensures
        r matches Ok(steps) && match input {
            CoreInput::Vote(p) => only_news(steps@, Action::EmitReceivedVote(p)) && is_news(
                steps@[0].action,
            ),
            CoreInput::Proposal(p) => only_news(steps@, Action::EmitReceivedProposal(p)) && is_news(
                steps@[0].action,
            ),
            CoreInput::ProposedValue(p, o) => only_news(
                steps@,
                Action::EmitReceivedProposedValue(p, o),
            ) && is_news(steps@[0].action),
            CoreInput::Propose(p) => only_news(steps@, Action::EmitProposedValue(p)) && is_news(
                steps@.last().action,
            ),
            _ => no_news(steps@),
        },
{
    let steps = r->Ok_0@;
    if input is Vote || input is Proposal || input is ProposedValue {
        assert(is_news(steps[0].action));
        assert(!is_news(steps[1].action));
    }
    if let CoreInput::Propose(p) = input {
        assert(steps[1].action == Action::EmitProposedValue(p));
        assert(!is_news(steps[0].action));
    }
}

/// A timer that has elapsed is cancelled before the core learns of it, and one
/// that was cancelled in the meantime leads to nothing.
pub proof fn law_elapsed_timer_is_cancelled<P: Ident>(
    state: &mut State<P>,
    config: &Config,
    timeout: Option<Timeout>,
    r: Result<Vec<Step<P>>, HandleError>,
)
    requires
        call_ensures(State::<P>::handle_msg, (state, config, Msg::TimeoutElapsed(timeout)), r),
    ensures
        r matches Ok(steps) && match timeout {
            Some(t) => steps@.len() == 2 && steps@[0].action == Action::<P>::CancelTimer(t),
            None => steps@.len() == 0,
        },
{
}

/// The application is asked for the first height once the node listens, and only
/// then: not a second time, and not by anything else that the network brings.
pub proof fn law_application_is_asked_for_the_first_height_once<P: Ident>(
    state: &mut State<P>,
    config: &Config,
    event: NetworkEvent<P>,
    r: Result<Vec<Step<P>>, HandleError>,
)
    requires
        call_ensures(State::<P>::handle_msg, (state, config, Msg::NetworkEvent(event)), r),
    ensures
        r matches Ok(steps) && does(steps@, Action::<P>::HostConsensusReady) == (event is Listening
            && old(state).phase == Phase::Unstarted),
        r matches Ok(steps) && forall|i: int|
            0 <= i < steps@.len() && (#[trigger] steps@[i]).action is HostConsensusReady
                ==> steps@[i].on_failure == OnFailure::Fail,
        final(state).phase == if event is Listening && old(state).phase == Phase::Unstarted {
            Phase::Ready
        } else {
            old(state).phase
        },
{
    let steps = r->Ok_0@;
    if event is Listening && old(state).phase == Phase::Unstarted {
        assert(steps[0].action == Action::<P>::HostConsensusReady);
    }
}

/// The connected peers are those that connected and did not disconnect since, and
/// the count of them moves by one exactly when they change.
pub proof fn law_peer_count_follows_the_peers<P: Ident>(
    state: &mut State<P>,
    config: &Config,
    event: NetworkEvent<P>,
    r: Result<Vec<Step<P>>, HandleError>,
    p: PeerId,
)
    requires
        call_ensures(State::<P>::handle_msg, (state, config, Msg::NetworkEvent(event)), r),
    ensures
        final(state)@.peers.contains(p) == match event {
            NetworkEvent::PeerConnected(q) => p == q || old(state)@.peers.contains(p),
            NetworkEvent::PeerDisconnected(q) => p != q && old(state)@.peers.contains(p),
            _ => old(state)@.peers.contains(p),
        },
        r matches Ok(steps) && does(steps@, Action::<P>::IncConnectedPeers) == (
        event matches NetworkEvent::PeerConnected(q) && !old(state)@.peers.contains(q)),
        r matches Ok(steps) && does(steps@, Action::<P>::DecConnectedPeers) == (
        event matches NetworkEvent::PeerDisconnected(q) && old(state)@.peers.contains(q)),
        (event is PeerConnected || event is PeerDisconnected) ==> (r matches Ok(steps) && steps@.len()
            <= 1),
{
    let steps = r->Ok_0@;
    if event is PeerConnected || event is PeerDisconnected {
        if steps.len() > 0 {
            assert(is_news(steps[0].action));
            let a = steps[0].action;
            assert(does(steps, a));
        }
    }
}

/// A part of a proposed value goes to the application, with the peer that sent it,
/// unless values travel in proposals alone; a failure of that is returned.
pub proof fn law_proposal_part_reaches_the_application<P: Ident>(
    state: &mut State<P>,
    config: &Config,
    from: PeerId,
    part: P,
    r: Result<Vec<Step<P>>, HandleError>,
)
    requires
        call_ensures(
            State::<P>::handle_msg,
            (state, config, Msg::NetworkEvent(NetworkEvent::ProposalPart(from, part))),
            r,
        ),
    ensures
        final(state)@ == old(state)@,
        r matches Ok(steps) && steps@.len() == if config.proposal_only {
            0int
        } else {
            1
        },
        !config.proposal_only ==> r->Ok_0@[0].action == Action::HostReceivedProposalPart(from, part)
            && r->Ok_0@[0].on_failure == OnFailure::Fail,
{
}

/// A validator proof is verified, for the peer that sent it.
pub proof fn law_validator_proof_is_verified<P: Ident>(
    state: &mut State<P>,
    config: &Config,
    peer_id: PeerId,
    proof: P,
    r: Result<Vec<Step<P>>, HandleError>,
)
    requires
        call_ensures(
            State::<P>::handle_msg,
            (
                state,
                config,
                Msg::NetworkEvent(NetworkEvent::ValidatorProofReceived { peer_id, proof }),
            ),
            r,
        ),
    ensures
        final(state)@ == old(state)@,
        r matches Ok(steps) && steps@.len() == 1 && steps@[0].action
            == Action::VerifyValidatorProof(peer_id, proof),
{
}

/// What concerns sync alone leads to nothing here.
pub proof fn law_sync_events_are_not_for_consensus<P: Ident>(
    state: &mut State<P>,
    config: &Config,
    event: NetworkEvent<P>,
    r: Result<Vec<Step<P>>, HandleError>,
)
    requires
        call_ensures(State::<P>::handle_msg, (state, config, Msg::NetworkEvent(event)), r),
        event is Status || event is SyncRequest || event is SyncResponse || event is SyncRequestFailed
            || event is PeerSubscribed,
    ensures
        final(state)@ == old(state)@,
        r matches Ok(steps) && steps@.len() == 0,
{
}

/// A height without validators is not started: the error names it, and nothing
/// changes.
pub proof fn law_height_needs_validators<P: Ident>(
    state: &mut State<P>,
    config: &Config,
    height: u64,
    params: HeightParams<P>,
    is_restart: bool,
    r: Result<Vec<Step<P>>, HandleError>,
)
    requires
        call_ensures(
            State::<P>::handle_msg,
            (
                state,
                config,
                if is_restart {
                    Msg::RestartHeight(height, params)
                } else {
                    Msg::StartHeight(height, params)
                },
            ),
            r,
        ),
    ensures
        r is Err <==> params.validators@.len() == 0,
        r matches Err(e) ==> e == HandleError::EmptyValidatorSet(height) && final(state)@
            == old(state)@,
{
}

/// A height that is started waits for its log. The node is a validator at it where
/// it takes part and is listed. Nothing of the last height is pending, the timer
/// for its log is cancelled if it runs, and the core is created if there is none.
/// Subscribers are told of the height, and the network of its validators. The log
/// is fetched for a validator that starts the height anew, and emptied otherwise.
/// What was kept for later, the phase and the peers stay.
pub proof fn law_height_is_started<P: Ident>(
    state: &mut State<P>,
    config: &Config,
    height: u64,
    params: HeightParams<P>,
    is_restart: bool,
    r: Result<Vec<Step<P>>, HandleError>,
)
    requires
        call_ensures(
            State::<P>::handle_msg,
            (
                state,
                config,
                if is_restart {
                    Msg::RestartHeight(height, params)
                } else {
                    Msg::StartHeight(height, params)
                },
            ),
            r,
        ),
        params.validators@.len() > 0,
    ensures
        ({
            let s = old(state)@;
            let t = final(state)@;
            let listed = exists|i: int|
                0 <= i < params.validators@.len() && (#[trigger] params.validators@[i])
                    == config.address;
            &&& t.is_validator == (config.enabled && listed)
            &&& t.pending.len() == 0
            &&& t.timer is None
            &&& t.stage == StageView::AwaitWal { height, is_restart, params: params.params }
            &&& t.core is Some
            &&& s.core is Some ==> t.core == s.core
            &&& s.core is None ==> t.core->Some_0.height == height && !t.core->Some_0.decided
                && t.core->Some_0.round == Round::Nil
            &&& t.phase == s.phase && t.kept == s.kept && t.peers == s.peers
        }),
        ({
            let s = old(state)@;
            let steps = r->Ok_0@;
            let n = steps.len() as int;
            &&& n == 3 + (if s.timer is Some {
                1int
            } else {
                0
            }) + (if s.core is None {
                1int
            } else {
                0
            })
            &&& s.timer is Some ==> steps[0].action == Action::<P>::CancelWalReplayTimer
            &&& s.core is None ==> steps[n - 4].action == Action::InitCore(height, params.params)
            &&& steps[n - 3].action == Action::<P>::EmitStartedHeight(height, is_restart)
            &&& steps[n - 2].action == Action::UpdateValidatorSet(params.params)
            &&& final(state)@.is_validator && !is_restart ==> steps[n - 1].action
                == Action::<P>::WalFetch(height) && steps[n - 1].on_failure == OnFailure::TellAndStop
            &&& !final(state)@.is_validator || is_restart ==> steps[n - 1].action
                == Action::<P>::WalReset(height) && steps[n - 1].on_failure == OnFailure::Stop
        }),
{
    let v = params.validators@;
    if v.contains(config.address) {
        let i = choose|i: int| 0 <= i < v.len() && v[i] == config.address;
        assert(v[i] == config.address);
    }
    if exists|i: int| 0 <= i < v.len() && (#[trigger] v[i]) == config.address {
        let i = choose|i: int| 0 <= i < v.len() && (#[trigger] v[i]) == config.address;
        assert(v.contains(v[i]));
    }
}

/// Once the log of a height is there, the timeouts of the height are set, and the
/// core starts the height, as the start or restart that it is; a failure stops
/// the actor. The entries of the log are kept for the replay.
pub proof fn law_core_starts_the_height<P: Ident>(
    state: &mut State<P>,
    entries: Vec<WalEntry<P>>,
    r: Vec<Step<P>>,
    height: u64,
    is_restart: bool,
    params: P,
)
    requires
        call_ensures(State::<P>::wal_ready, (state, entries), r),
        old(state)@.stage == (StageView::AwaitWal { height, is_restart, params }),
    ensures
        final(state)@.stage == (StageView::AwaitStart { height, is_restart, entries: entries@ }),
        final(state)@.phase == old(state)@.phase,
        final(state)@.kept == old(state)@.kept,
        final(state)@.is_validator == old(state)@.is_validator,
        final(state)@.core == old(state)@.core,
        r@.len() == 2,
        r@[0].action == Action::SetTimeouts(params),
        r@[1].action == Action::Process(CoreInput::StartHeight(height, params, is_restart)),
        r@[1].on_failure == OnFailure::Stop,
{
}

/// Once the core has started a height with an empty log, consensus runs: sync is
/// told of the height, and what was kept is handled, unless the height was
/// restarted, which drops it.
pub proof fn law_started_height_runs<P: Ident>(
    state: &mut State<P>,
    config: &Config,
    r: Vec<Step<P>>,
    height: u64,
    is_restart: bool,
    entries: Seq<WalEntry<P>>,
)
    requires
        call_ensures(State::<P>::core_started, (state, config), r),
        old(state)@.stage == (StageView::AwaitStart { height, is_restart, entries }),
        entries.len() == 0,
    ensures
        final(state)@.phase == Phase::Running,
        final(state)@.stage is Idle,
        is_restart ==> final(state)@.kept.len() == 0,
        !is_restart ==> final(state)@.kept == old(state)@.kept,
        r@.len() == 2,
        r@[0].action == Action::<P>::NotifySyncStarted(height, is_restart),
        r@[1].action == Action::<P>::HandleKeptMessages,
        r@[1].on_failure == OnFailure::Fail,
{
}

/// Once the core has started a height with entries in its log, the actor waits for
/// sync where there is a delay: the entries are pending, the timer runs, and sync
/// is told of the height, but nothing is replayed. Without a delay the entries are
/// replayed.
pub proof fn law_started_height_recovers<P: Ident>(
    state: &mut State<P>,
    config: &Config,
    r: Vec<Step<P>>,
    height: u64,
    is_restart: bool,
    entries: Seq<WalEntry<P>>,
)
    requires
        call_ensures(State::<P>::core_started, (state, config), r),
        old(state)@.stage == (StageView::AwaitStart { height, is_restart, entries }),
        entries.len() > 0,
    ensures
        final(state)@.kept == old(state)@.kept,
        config.wal_replay_delay > 0 ==> {
            &&& final(state)@.phase == Phase::WaitingForSync
            &&& final(state)@.pending == entries
            &&& final(state)@.timer == Some(height)
            &&& final(state)@.stage is Idle
            &&& r@.len() == 2
            &&& r@[0].action == Action::<P>::NotifySyncStarted(height, is_restart)
            &&& r@[1].action == Action::<P>::StartWalReplayTimer(height)
        },
        config.wal_replay_delay == 0 ==> {
            &&& final(state)@.phase == Phase::Recovering
            &&& final(state)@.stage == StageView::<P>::AwaitReplay {
                announce: Some((height, is_restart)),
            }
            &&& r@.len() > 0
            &&& r@[0].action == Action::<P>::EmitWalReplayBegin(height, entries.len() as usize)
        },
{
}

/// A replay lets the core process the inputs of the log in order, up to the first
/// entry that is corrupt: at that the actor hangs. Subscribers are told of each.
pub open spec fn replays<P>(steps: Seq<Step<P>>, entries: Seq<WalEntry<P>>, n: int) -> bool {
    &&& 0 <= n <= entries.len()
    &&& forall|k: int|
        0 <= k < n ==> {
            &&& (#[trigger] entries[k]) is Input
            &&& steps[2 * k + 1].action == Action::EmitWalReplayEntry(entries[k]->Input_0)
            &&& steps[2 * k + 2].action == Action::Process(
                CoreInput::Replayed(entries[k]->Input_0),
            )
            &&& steps[2 * k + 2].on_failure == OnFailure::TellAndHang
        }
    &&& if n < entries.len() {
        &&& entries[n] is Corrupt
        &&& steps.len() == 2 * n + 3
        &&& steps[2 * n + 1].action == Action::<P>::EmitWalCorrupted
        &&& steps[2 * n + 2].action == Action::<P>::HangOnCorruptEntry
    } else {
        &&& steps.len() == 2 * n + 2
        &&& steps[2 * n + 1].action == Action::<P>::EmitWalReplayDone
    }
}

proof fn lemma_replays<P>(entries: Seq<WalEntry<P>>, i: int) -> (n: int)
    requires
        0 <= i <= entries.len(),
    ensures
        ({
            let steps = crate::engine::consensus::replay_from(entries, i);
            &&& i <= n <= entries.len()
            &&& forall|k: int|
                i <= k < n ==> {
                    &&& (#[trigger] entries[k]) is Input
                    &&& steps[2 * (k - i)].action == Action::EmitWalReplayEntry(entries[k]->Input_0)
                    &&& steps[2 * (k - i) + 1].action == Action::Process(
                        CoreInput::Replayed(entries[k]->Input_0),
                    )
                    &&& steps[2 * (k - i) + 1].on_failure == OnFailure::TellAndHang
                }
            &&& if n < entries.len() {
                &&& entries[n] is Corrupt
                &&& steps.len() == 2 * (n - i) + 2
                &&& steps[2 * (n - i)].action == Action::<P>::EmitWalCorrupted
                &&& steps[2 * (n - i) + 1].action == Action::<P>::HangOnCorruptEntry
            } else {
                &&& steps.len() == 2 * (n - i) + 1
                &&& steps[2 * (n - i)].action == Action::<P>::EmitWalReplayDone
            }
        }),
    decreases entries.len() - i,
{
    if i == entries.len() {
        i
    } else {
        match entries[i] {
            WalEntry::Corrupt => i,
            WalEntry::Input(p) => {
                let n = lemma_replays(entries, i + 1);
                let tail = crate::engine::consensus::replay_from(entries, i + 1);
                let steps = crate::engine::consensus::replay_from(entries, i);
                assert(steps.len() == tail.len() + 2);
                assert(forall|j: int| 2 <= j < steps.len() ==> #[trigger] steps[j] == tail[j - 2]);
                n
            },
        }
    }
}

/// The replay of the log, without a wait for sync, covers its entries.
pub proof fn law_log_is_replayed<P: Ident>(
    state: &mut State<P>,
    config: &Config,
    r: Vec<Step<P>>,
    height: u64,
    is_restart: bool,
    entries: Seq<WalEntry<P>>,
)
    requires
        call_ensures(State::<P>::core_started, (state, config), r),
        old(state)@.stage == (StageView::AwaitStart { height, is_restart, entries }),
        entries.len() > 0,
        config.wal_replay_delay == 0,
    ensures
        exists|n: int| #[trigger] replays(r@, entries, n),
{
    let n = lemma_replays(entries, 0);
    let tail = crate::engine::consensus::replay_from(entries, 0);
    assert(forall|j: int| 1 <= j < r@.len() ==> #[trigger] r@[j] == tail[j - 1]);
    assert(replays(r@, entries, n));
}

/// After the wait for sync and the reset of the core, the replay of the log covers
/// the entries that were pending, and sync is not told of the height again.
pub proof fn law_pending_log_is_replayed<P: Ident>(
    state: &mut State<P>,
    r: Vec<Step<P>>,
    height: u64,
    entries: Seq<WalEntry<P>>,
)
    requires
        call_ensures(State::<P>::core_reset, (state,), r),
        old(state)@.stage == (StageView::AwaitReset { height, entries }),
    ensures
        final(state)@.stage == (StageView::<P>::AwaitReplay { announce: None }),
        final(state)@.phase == old(state)@.phase,
        r@.len() > 0 && r@[0].action == Action::<P>::EmitWalReplayBegin(
            height,
            entries.len() as usize,
        ),
        exists|n: int| #[trigger] replays(r@, entries, n),
{
    let n = lemma_replays(entries, 0);
    let tail = crate::engine::consensus::replay_from(entries, 0);
    assert(forall|j: int| 1 <= j < r@.len() ==> #[trigger] r@[j] == tail[j - 1]);
    assert(replays(r@, entries, n));
}

/// After a replay consensus runs, and what was kept is handled; sync is told of
/// the height where it was not before.
pub proof fn law_replayed_height_runs<P: Ident>(
    state: &mut State<P>,
    r: Vec<Step<P>>,
    announce: Option<(u64, bool)>,
)
    requires
        call_ensures(State::<P>::replay_finished, (state,), r),
        old(state)@.stage == (StageView::<P>::AwaitReplay { announce }),
    ensures
        final(state)@.phase == Phase::Running,
        final(state)@.stage is Idle,
        (announce matches Some((_, true))) || final(state)@.kept == old(state)@.kept,
        (announce matches Some((_, true))) ==> final(state)@.kept.len() == 0,
        r@.len() > 0 && r@.last().action == Action::<P>::HandleKeptMessages && r@.last().on_failure
            == OnFailure::Fail,
        announce matches Some((h, restart)) ==> r@.len() == 2 && r@[0].action
            == Action::<P>::NotifySyncStarted(h, restart),
        announce is None ==> r@.len() == 1,
{
}

/// Sync is told of every decision that was committed. That of the current height
/// ends a wait for sync: consensus runs, nothing is pending, and the timer is
/// cancelled; any other changes nothing.
pub proof fn law_commit_is_told_to_sync<P: Ident>(
    state: &mut State<P>,
    config: &Config,
    height: u64,
    r: Result<Vec<Step<P>>, HandleError>,
)
    requires
        call_ensures(State::<P>::handle_msg, (state, config, Msg::DecisionCommitted(height)), r),
    ensures
        ({
            let s = old(state)@;
            let t = final(state)@;
            let steps = r->Ok_0@;
            let current = match s.core {
                Some(c) => c.height,
                None => 0,
            };
            &&& r is Ok
            &&& steps.len() > 0 && steps[0].action == Action::<P>::NotifySyncDecided(height)
            &&& if s.phase == Phase::WaitingForSync && height == current {
                &&& t.phase == Phase::Running && t.pending.len() == 0 && t.timer is None
                &&& t.kept == s.kept && t.core == s.core
                &&& steps.last().action == Action::<P>::HandleKeptMessages
                &&& steps.len() == if s.timer is Some {
                    3int
                } else {
                    2
                }
                &&& s.timer is Some ==> steps[1].action == Action::<P>::CancelWalReplayTimer
            } else {
                t == s && steps.len() == 1
            }
        }),
{
}

/// When the delay before the replay has elapsed for the current height, which is
/// not decided, the wait for sync ends: with entries pending, the core starts the
/// height over, and the entries are to be replayed after that; without, consensus
/// runs. For another height, or otherwise, nothing happens.
pub proof fn law_wait_for_sync_ends<P: Ident>(
    state: &mut State<P>,
    config: &Config,
    height: u64,
    r: Result<Vec<Step<P>>, HandleError>,
)
    requires
        call_ensures(State::<P>::handle_msg, (state, config, Msg::WalReplayDelayElapsed(height)), r),
    ensures
        ({
            let s = old(state)@;
            let t = final(state)@;
            let steps = r->Ok_0@;
            let current = match s.core {
                Some(c) => c.height,
                None => 0,
            };
            let decided = s.core is Some && s.core->Some_0.decided;
            &&& r is Ok
            &&& if s.phase != Phase::WaitingForSync || height != current || decided {
                t == s && steps.len() == 0
            } else {
                &&& t.pending.len() == 0 && t.timer is None && t.kept == s.kept && t.core == s.core
                &&& s.timer is Some ==> steps[0].action == Action::<P>::CancelWalReplayTimer
                &&& steps.len() == if s.timer is Some {
                    2int
                } else {
                    1
                }
                &&& s.pending.len() > 0 ==> {
                    &&& t.phase == Phase::Recovering
                    &&& t.stage == (StageView::AwaitReset { height, entries: s.pending })
                    &&& steps.last().action == Action::<P>::Process(CoreInput::ResetHeight(height))
                    &&& steps.last().on_failure == OnFailure::Stop
                }
                &&& s.pending.len() == 0 ==> {
                    &&& t.phase == Phase::Running
                    &&& steps.last().action == Action::<P>::HandleKeptMessages
                }
            }
        }),
{
}

/// Whoever asks for the state is answered, also before there is one.
pub proof fn law_state_is_dumped<P: Ident>(
    state: &mut State<P>,
    config: &Config,
    r: Result<Vec<Step<P>>, HandleError>,
)
    requires
        call_ensures(State::<P>::handle_msg, (state, config, Msg::DumpState), r),
    ensures
        final(state)@ == old(state)@,
        r matches Ok(steps) && steps@.len() == 1 && steps@[0].action == Action::<P>::ReplyStateDump(
            old(state)@.core is Some,
        ),
{
}

/// While consensus is not running, a message is kept for later, at the end, as
/// long as there is room, and dropped without; nothing is done for it. Not kept
/// are the start of a height, commits, the end of the wait for sync, and that the
/// node listens or a peer comes or goes. While waiting for sync, what sync brings
/// is not kept either.
pub proof fn law_messages_wait_while_not_running<P: Ident>(
    state: &mut State<P>,
    config: &Config,
    msg: Msg<P>,
    r: Result<Handled<P>, HandleError>,
)
    requires
        call_ensures(State::<P>::handle, (state, config, msg), r),
    ensures
        ({
            let s = old(state)@;
            let t = final(state)@;
            let prompt = match msg {
                Msg::StartHeight(_, _) | Msg::DecisionCommitted(_) | Msg::WalReplayDelayElapsed(_) => true,
                Msg::NetworkEvent(e) => e is Listening || e is PeerConnected || e is PeerDisconnected,
                Msg::ProcessSyncResponse(_) => s.phase == Phase::WaitingForSync,
                Msg::ReceivedProposedValue(_, origin) => s.phase == Phase::WaitingForSync && origin
                    == ValueOrigin::Sync,
                _ => false,
            };
            let waits = s.phase != Phase::Running && !prompt;
            &&& (r matches Ok(Handled::Kept)) == waits
            &&& waits ==> {
                &&& t.kept == if s.kept.len() < 1024 {
                    s.kept.push(msg)
                } else {
                    s.kept
                }
                &&& t.phase == s.phase && t.core == s.core && t.peers == s.peers && t.stage == s.stage
                    && t.pending == s.pending && t.timer == s.timer && t.is_validator == s.is_validator
            }
        }),
{
}

/// Handling a message at once is handling it: what is not kept leads to the same
/// as for the actor's handler.
pub proof fn law_unkept_message_is_handled<P: Ident>(
    one: &mut State<P>,
    other: &mut State<P>,
    config: &Config,
    msg: Msg<P>,
    r: Result<Handled<P>, HandleError>,
    handled: Result<Vec<Step<P>>, HandleError>,
)
    requires
        call_ensures(State::<P>::handle, (one, config, msg), r),
        call_ensures(State::<P>::handle_msg, (other, config, msg), handled),
        old(one)@ == old(other)@,
        old(one).phase == old(other).phase,
        !(r matches Ok(Handled::Kept)),
    ensures
        final(one)@ == final(other)@,
        r is Ok == handled is Ok,
        r matches Ok(Handled::Steps(a)) ==> (handled matches Ok(b) && a@ == b@),
        r matches Err(e) ==> handled == Err::<Vec<Step<P>>, HandleError>(e),
{
}

/// What was kept comes back in the order in which it came, each message once.
pub proof fn law_kept_messages_come_back_in_order<P: Ident>(state: &mut State<P>, r: Option<Msg<P>>)
    requires
        call_ensures(State::<P>::next_kept, (state,), r),
    ensures
        r is Some <==> old(state)@.kept.len() > 0,
        r matches Some(m) ==> old(state)@.kept =~= seq![m] + final(state)@.kept,
        r is None ==> final(state)@.kept == old(state)@.kept,
        final(state)@.phase == old(state)@.phase,
        final(state)@.core == old(state)@.core,
{
}

/// Only the commit of the current height ends a wait for sync; and what is shown
/// for a message is the height that it starts, in its first round, or else where
/// the core is.
pub proof fn law_heights_and_rounds<P>(
    phase: Phase,
    current: u64,
    committed: u64,
    ends: bool,
    round: Round,
    msg: Msg<P>,
    h: u64,
    q: Round,
)
    requires
        call_ensures(should_end_waiting_for_sync, (phase, current, committed), ends),
        call_ensures(span_height::<P>, (current, &msg), h),
        call_ensures(span_round::<P>, (round, &msg), q),
    ensures
        ends <==> phase == Phase::WaitingForSync && committed == current,
        msg matches Msg::StartHeight(n, _) ==> h == n && q == Round::At(0),
        !(msg is StartHeight) ==> h == current && q == round,
{
}

} // verus!
