//! The consensus actor: which messages it handles or buffers, what it does
//! for each of them, and what it does for each effect of the consensus core.
//!
//! The actor's work outside is a list of steps, carried out one after the
//! other. A step says what its failure leads to. Where the work goes on
//! depending on what a step brought, a method of [`State`] takes that and
//! gives the next steps.

use vstd::prelude::*;
use vstd::string::*;

use crate::context::Address;
use crate::engine::event::{NetworkEvent, PeerId};
use crate::engine::failure::{hang_on_safety_failure, stop_on_failure, Outcome};
use crate::ident::{Ident, OrdMap};
use crate::types::{Round, Timeout, ValueOrigin};

verus! {

/// How many messages are kept at most while consensus is not running.
pub const MAX_BUFFER_SIZE: usize = 1024;

/// The phases of the actor.
#[derive(Clone, Copy, Debug, PartialEq, Eq, Structural)]
pub enum Phase {
    /// Not started.
    Unstarted,
    /// Ready to start a height.
    Ready,
    /// Running.
    Running,
    /// Replaying the log.
    Recovering,
    /// Waiting for sync to bring a certificate for the crash height before the
    /// log is replayed.
    WaitingForSync,
}

/// The parameters of a height.
pub struct HeightParams<P> {
    /// The addresses of the validators.
    pub validators: Vec<Address>,
    /// The parameters as a whole, handed on to the core.
    pub params: P,
}

/// The messages of the actor.
pub enum Msg<P> {
    /// Start this height.
    StartHeight(u64, HeightParams<P>),
    /// An event of the network actor.
    NetworkEvent(NetworkEvent<P>),
    /// A timer has elapsed; none where it was cancelled in the meantime.
    TimeoutElapsed(Option<Timeout>),
    /// The application has built a value to propose.
    ProposeValue(P),
    /// A proposed value was received in full.
    ReceivedProposedValue(P, ValueOrigin),
    /// A value from sync.
    ProcessSyncResponse(P),
    /// Start this height over, with an empty log.
    RestartHeight(u64, HeightParams<P>),
    /// The application has committed the decision for this height.
    DecisionCommitted(u64),
    /// The delay before replaying the log of this height has elapsed.
    WalReplayDelayElapsed(u64),
    /// Asks for the state.
    DumpState,
}

/// Whether `msg` is kept for later while consensus is not running.
pub open spec fn buffers<P>(msg: Msg<P>) -> bool {
    match msg {
        Msg::StartHeight(_, _) => false,
        Msg::DecisionCommitted(_) => false,
        Msg::WalReplayDelayElapsed(_) => false,
        Msg::NetworkEvent(NetworkEvent::Listening(_)) => false,
        Msg::NetworkEvent(NetworkEvent::PeerConnected(_)) => false,
        Msg::NetworkEvent(NetworkEvent::PeerDisconnected(_)) => false,
        _ => true,
    }
}

/// Whether `msg` belongs to applying a certificate from sync.
pub open spec fn applies_sync<P>(msg: Msg<P>) -> bool {
    match msg {
        Msg::ProcessSyncResponse(_) => true,
        Msg::ReceivedProposedValue(_, ValueOrigin::Sync) => true,
        _ => false,
    }
}

/// Whether `msg` is kept for later in `phase`.
pub open spec fn kept_for_later<P>(phase: Phase, msg: Msg<P>) -> bool {
    phase != Phase::Running && buffers(msg) && !(phase == Phase::WaitingForSync && applies_sync(msg))
}

/// Whether `msg` is kept for later while consensus is not running.
pub fn should_buffer<P>(msg: &Msg<P>) -> (r: bool)
    ensures
        r == buffers(*msg),
{
    match msg {
        Msg::StartHeight(_, _) => false,
        Msg::DecisionCommitted(_) => false,
        Msg::WalReplayDelayElapsed(_) => false,
        Msg::NetworkEvent(NetworkEvent::Listening(_)) => false,
        Msg::NetworkEvent(NetworkEvent::PeerConnected(_)) => false,
        Msg::NetworkEvent(NetworkEvent::PeerDisconnected(_)) => false,
        _ => true,
    }
}

/// Whether `msg` belongs to applying a certificate from sync.
pub fn is_sync_application_msg<P>(msg: &Msg<P>) -> (r: bool)
    ensures
        r == applies_sync(*msg),
{
    match msg {
        Msg::ProcessSyncResponse(_) => true,
        Msg::ReceivedProposedValue(_, ValueOrigin::Sync) => true,
        _ => false,
    }
}

/// Whether the commit of a decision ends the wait for sync: only that of the
/// current height does.
pub fn should_end_waiting_for_sync(phase: Phase, current_height: u64, committed_height: u64) -> (r: bool)
    ensures
        r == (phase == Phase::WaitingForSync && committed_height == current_height),
{
    phase == Phase::WaitingForSync && committed_height == current_height
}

/// The height to show for `msg`: that of the height about to start, else the
/// current one.
pub fn span_height<P>(height: u64, msg: &Msg<P>) -> (r: u64)
    ensures
        r == (match msg {
            Msg::StartHeight(h, _) => *h,
            _ => height,
        }),
{
    match msg {
        Msg::StartHeight(h, _) => *h,
        _ => height,
    }
}

/// The round to show for `msg`: 0 for a height about to start, else the
/// current one.
pub fn span_round<P>(round: Round, msg: &Msg<P>) -> (r: Round)
    ensures
        r == (match msg {
            Msg::StartHeight(_, _) => Round::At(0),
            _ => round,
        }),
{
    match msg {
        Msg::StartHeight(_, _) => Round::new(0),
        _ => round,
    }
}

/// An entry read back from the log.
pub enum WalEntry<P> {
    /// An input of the core.
    Input(P),
    /// An entry that could not be read.
    Corrupt,
}

/// What the core is given to process.
pub enum CoreInput<P> {
    /// Start a height with these parameters; whether it is a restart.
    StartHeight(u64, P, bool),
    /// Start the current height over, with the parameters that the core has.
    ResetHeight(u64),
    /// Propose a value.
    Propose(P),
    /// A vote.
    Vote(P),
    /// A proposal.
    Proposal(P),
    /// A polka certificate.
    PolkaCertificate(P),
    /// A round certificate.
    RoundCertificate(P),
    /// A timeout.
    TimeoutElapsed(Timeout),
    /// A proposed value.
    ProposedValue(P, ValueOrigin),
    /// A value from sync.
    SyncValueResponse(P),
    /// An input read back from the log.
    Replayed(P),
}

/// The messages that keep consensus alive.
#[derive(Clone, Copy, Debug, PartialEq, Eq, Structural)]
pub enum LivenessKind {
    /// A vote sent again.
    Vote,
    /// A polka certificate.
    PolkaCertificate,
    /// A certificate that justifies skipping a round.
    SkipRoundCertificate,
}

/// The certificates that are verified.
#[derive(Clone, Copy, Debug, PartialEq, Eq, Structural)]
pub enum CertificateKind {
    Commit,
    Polka,
    ExtendedCommit,
    Round,
}

/// Work outside the actor.
pub enum Action<P> {
    // The core
    /// Create the core at this height.
    InitCore(u64, P),
    /// Use the timeouts of these parameters from now on.
    SetTimeouts(P),
    /// Let the core process an input.
    Process(CoreInput<P>),
    // The log
    /// Empty the log for this height.
    WalReset(u64),
    /// Fetch the entries of the log for this height.
    WalFetch(u64),
    /// Append an entry to the log of this height.
    WalAppend(u64, P),
    /// Bring the log to disk.
    WalFlush,
    // Other actors
    /// Tell sync that this height was started; whether it was a restart.
    NotifySyncStarted(u64, bool),
    /// Tell sync that this height was decided.
    NotifySyncDecided(u64),
    /// Tell sync that a value at this height is the fault of a peer.
    NotifySyncPeerFault(PeerId, u64),
    /// Tell sync that a value at this height failed for a local reason.
    NotifySyncLocalTransientError(u64),
    /// Give the validator set to the network actor.
    UpdateValidatorSet(P),
    /// Give a consensus message to the network actor.
    PublishConsensusMsg(P),
    /// Give a liveness message to the network actor.
    PublishLivenessMsg(LivenessKind, P),
    /// Give the verdict on a validator proof to the network actor, with the
    /// public key where the proof is valid.
    SendProofVerdict(PeerId, bool, Option<P>),
    /// Ask the application for the first height.
    HostConsensusReady,
    /// Hand a part of a proposed value to the application.
    HostReceivedProposalPart(PeerId, P),
    /// Tell the application that a round was started. It returns the undecided
    /// values that it knows.
    HostStartedRound(u64, Round, P),
    /// Send every value that the application returned to this actor.
    CastUndecidedValues,
    /// Ask the application to extend a vote.
    HostExtendVote(P),
    /// Ask the application to verify a vote extension.
    HostVerifyVoteExtension(P),
    /// Ask the application for a value to propose, within a timeout.
    HostGetValue(u64, Round, Timeout),
    /// Ask the application to send a value again.
    HostRestreamValue(P),
    /// Tell the application of a decision at this height. Its reply is handled
    /// as the commit of that decision.
    HostDecided(u64, P),
    /// Tell the application that a height is final. Its reply starts or
    /// restarts a height.
    HostFinalized(P),
    /// Hand a value from sync to the application.
    HostProcessSyncedValue(P),
    /// Send this actor a proposed value that came from sync.
    CastSyncedValue(P),
    // Signatures
    /// Sign a proposal.
    SignProposal(P),
    /// Sign a vote.
    SignVote(P),
    /// Sign a vote extension.
    SignVoteExtension(P),
    /// Verify the signature of a vote.
    VerifyVote(P),
    /// Verify the signature of a proposal.
    VerifyProposal(P),
    /// Verify a certificate.
    VerifyCertificate(CertificateKind, P),
    /// Verify the signature of a vote extension.
    VerifyVoteExtensionSignature(P),
    /// Verify a validator proof of a peer.
    VerifyValidatorProof(PeerId, P),
    // Timers
    /// Start a timer.
    StartTimer(Timeout),
    /// Cancel a timer.
    CancelTimer(Timeout),
    /// Cancel all timers.
    CancelAllTimers,
    /// Start the timer for the replay of the log of this height.
    StartWalReplayTimer(u64),
    /// Cancel the timer for the replay of the log.
    CancelWalReplayTimer,
    // Subscribers and metrics
    /// A height was started; whether it was a restart.
    EmitStartedHeight(u64, bool),
    /// A round was started.
    EmitStartedRound(u64, Round, P),
    /// A vote was received.
    EmitReceivedVote(P),
    /// A proposal was received.
    EmitReceivedProposal(P),
    /// A proposed value was received.
    EmitReceivedProposedValue(P, ValueOrigin),
    /// A value was proposed.
    EmitProposedValue(P),
    /// A consensus message is about to be published.
    EmitPublished(P),
    /// A vote is about to be sent again.
    EmitRepublishVote(P),
    /// A polka certificate is about to be published.
    EmitPolkaCertificate(P),
    /// A round certificate is about to be published.
    EmitSkipRoundCertificate(P),
    /// A round certificate is about to be sent again.
    EmitRebroadcastRoundCertificate(P),
    /// A value was decided.
    EmitDecided(P),
    /// A height is final.
    EmitFinalized(P),
    /// The replay of this many entries of the log of a height begins.
    EmitWalReplayBegin(u64, usize),
    /// An entry of the log is about to be replayed.
    EmitWalReplayEntry(P),
    /// The replay of the log is done.
    EmitWalReplayDone,
    /// An entry of the log is corrupt.
    EmitWalCorrupted,
    /// One peer more is connected.
    IncConnectedPeers,
    /// One peer less is connected.
    DecConnectedPeers,
    /// So many equivocating proposals were seen.
    CountEquivocationProposals(usize),
    /// So many equivocating votes were seen.
    CountEquivocationVotes(usize),
    // This actor
    /// Report a safety failure and make no further progress.
    HangOnCorruptEntry,
    /// Handle the kept messages, one after the other.
    HandleKeptMessages,
    /// Reply with the state of the core, if there is one.
    ReplyStateDump(bool),
}

/// What the failure of a step leads to.
#[derive(Clone, Copy, Debug, PartialEq, Eq, Structural)]
pub enum OnFailure {
    /// Nothing: the next step follows.
    Ignore,
    /// The actor's handler returns the error.
    Fail,
    /// The actor fails, so that the process is restarted.
    Stop,
    /// A safety failure is reported and the actor makes no further progress.
    Hang,
    /// Where the log replied with an error, subscribers are told. The actor
    /// fails.
    TellAndStop,
    /// Subscribers are told. A safety failure is reported and the actor makes
    /// no further progress.
    TellAndHang,
}

/// What the actor does after a step has failed for `reason`; nothing where the
/// next step follows.
pub fn after_failure(on_failure: OnFailure, reason: String) -> (r: Option<Outcome<()>>)
    ensures
        match on_failure {
            OnFailure::Ignore => r is None,
            OnFailure::Fail => r == Some(Outcome::<()>::Fail(reason)),
            OnFailure::Stop | OnFailure::TellAndStop => r matches Some(Outcome::Fail(m)) && m@
                == "liveness failure: "@ + reason@,
            OnFailure::Hang | OnFailure::TellAndHang => r == Some(Outcome::<()>::HangWith(reason)),
        },
{
    match on_failure {
        OnFailure::Ignore => None,
        OnFailure::Fail => Some(Outcome::Fail(reason)),
        OnFailure::Stop | OnFailure::TellAndStop => Some(stop_on_failure(Err(reason))),
        OnFailure::Hang | OnFailure::TellAndHang => Some(hang_on_safety_failure(Err(reason))),
    }
}

/// Whether subscribers are told of a failed step, `replied` being whether the
/// failure is the reply of the one that was asked.
pub fn tells_subscribers(on_failure: OnFailure, replied: bool) -> (r: bool)
    ensures
        r == match on_failure {
            OnFailure::TellAndStop => replied,
            OnFailure::TellAndHang => true,
            _ => false,
        },
{
    match on_failure {
        OnFailure::TellAndStop => replied,
        OnFailure::TellAndHang => true,
        _ => false,
    }
}

/// A step of the actor's work.
pub struct Step<P> {
    pub action: Action<P>,
    pub on_failure: OnFailure,
}

/// What the actor reads of the core.
#[derive(Clone, Copy, Debug, PartialEq, Eq, Structural)]
pub struct Core {
    /// The current height.
    pub height: u64,
    /// The current round.
    pub round: Round,
    /// Whether the current height is decided.
    pub decided: bool,
}

/// What the actor is in the middle of.
pub enum Stage<P> {
    /// Nothing.
    Idle,
    /// Starting a height: waiting for the log.
    AwaitWal { height: u64, is_restart: bool, params: P },
    /// Starting a height: waiting for the core to start it.
    AwaitStart { height: u64, is_restart: bool, entries: Vec<WalEntry<P>> },
    /// Ending the wait for sync: waiting for the core to start over.
    AwaitReset { height: u64, entries: Vec<WalEntry<P>> },
    /// Replaying the log; the height to tell sync about afterwards, if any.
    AwaitReplay { announce: Option<(u64, bool)> },
}

/// What the actor is in the middle of, as a value.
pub enum StageView<P> {
    Idle,
    AwaitWal { height: u64, is_restart: bool, params: P },
    AwaitStart { height: u64, is_restart: bool, entries: Seq<WalEntry<P>> },
    AwaitReset { height: u64, entries: Seq<WalEntry<P>> },
    AwaitReplay { announce: Option<(u64, bool)> },
}

impl<P> View for Stage<P> {
    type V = StageView<P>;

    open spec fn view(&self) -> StageView<P> {
        match self {
            Stage::Idle => StageView::Idle,
            Stage::AwaitWal { height, is_restart, params } => StageView::AwaitWal {
                height: *height,
                is_restart: *is_restart,
                params: *params,
            },
            Stage::AwaitStart { height, is_restart, entries } => StageView::AwaitStart {
                height: *height,
                is_restart: *is_restart,
                entries: entries@,
            },
            Stage::AwaitReset { height, entries } => StageView::AwaitReset {
                height: *height,
                entries: entries@,
            },
            Stage::AwaitReplay { announce } => StageView::AwaitReplay { announce: *announce },
        }
    }
}

/// What the actor is configured with.
pub struct Config {
    /// The address of this node's validator.
    pub address: Address,
    /// Whether this node takes part in consensus where it is a validator.
    pub enabled: bool,
    /// How long to wait for sync before replaying the log, in milliseconds.
    pub wal_replay_delay: u64,
    /// Whether values travel inside proposals alone, so that parts are not
    /// expected.
    pub proposal_only: bool,
}

/// The state of the actor.
pub struct State<P> {
    /// The core, once the first height was started.
    pub core: Option<Core>,
    /// The connected peers.
    pub connected_peers: OrdMap<PeerId, ()>,
    /// The phase.
    pub phase: Phase,
    /// Whether this node is a validator at the current height. Others do not
    /// write the log: they cannot equivocate.
    pub is_validator: bool,
    /// The messages kept while consensus was not running, oldest first.
    pub msg_buffer: Vec<Msg<P>>,
    /// The entries of the log to replay after the wait for sync.
    pub pending_wal_entries: Vec<WalEntry<P>>,
    /// The height of the running timer for the replay of the log.
    pub wal_replay_timer: Option<u64>,
    /// What the actor is in the middle of.
    pub stage: Stage<P>,
}

/// The state of the actor, as a value.
#[verifier::reject_recursive_types(P)]
pub struct StateView<P> {
    pub core: Option<Core>,
    pub peers: Set<PeerId>,
    pub phase: Phase,
    pub is_validator: bool,
    pub kept: Seq<Msg<P>>,
    pub pending: Seq<WalEntry<P>>,
    pub timer: Option<u64>,
    pub stage: StageView<P>,
}

impl<P> View for State<P> {
    type V = StateView<P>;

    open spec fn view(&self) -> StateView<P> {
        StateView {
            core: self.core,
            peers: self.connected_peers@.dom(),
            phase: self.phase,
            is_validator: self.is_validator,
            kept: self.msg_buffer@,
            pending: self.pending_wal_entries@,
            timer: self.wal_replay_timer,
            stage: self.stage@,
        }
    }
}

/// A step whose failure is of no consequence.
pub open spec fn ignoring<P>(action: Action<P>) -> Step<P> {
    Step { action, on_failure: OnFailure::Ignore }
}

/// A step whose failure is returned.
pub open spec fn failing<P>(action: Action<P>) -> Step<P> {
    Step { action, on_failure: OnFailure::Fail }
}

/// A step whose failure stops the actor.
pub open spec fn stopping<P>(action: Action<P>) -> Step<P> {
    Step { action, on_failure: OnFailure::Stop }
}

/// A step whose failure hangs the actor.
pub open spec fn hanging<P>(action: Action<P>) -> Step<P> {
    Step { action, on_failure: OnFailure::Hang }
}

/// The step that fetches the log, whose failure is told and stops the actor.
pub open spec fn fetching<P>(height: u64) -> Step<P> {
    Step { action: Action::WalFetch(height), on_failure: OnFailure::TellAndStop }
}

/// The step that replays an entry of the log, whose failure is told and hangs
/// the actor.
pub open spec fn replaying<P>(p: P) -> Step<P> {
    Step { action: Action::Process(CoreInput::Replayed(p)), on_failure: OnFailure::TellAndHang }
}

/// Why a message could not be handled.
#[derive(Clone, Copy, Debug, PartialEq, Eq, Structural)]
pub enum HandleError {
    /// The validator set for this height is empty.
    EmptyValidatorSet(u64),
}

/// The steps for replaying `entries` from the `i`-th on: each is replayed,
/// and a corrupt or failing one hangs the actor.
pub open spec fn replay_from<P>(entries: Seq<WalEntry<P>>, i: int) -> Seq<Step<P>>
    decreases entries.len() - i,
{
    if i < 0 || i >= entries.len() {
        seq![ignoring(Action::EmitWalReplayDone)]
    } else {
        match entries[i] {
            WalEntry::Corrupt => seq![
                ignoring(Action::EmitWalCorrupted),
                ignoring(Action::HangOnCorruptEntry),
            ],
            WalEntry::Input(p) => seq![
                ignoring(Action::EmitWalReplayEntry(p)),
                replaying(p),
            ] + replay_from(entries, i + 1),
        }
    }
}

/// The steps for replaying `entries` of the log of `height`.
pub open spec fn replay_steps<P>(height: u64, entries: Seq<WalEntry<P>>) -> Seq<Step<P>> {
    seq![ignoring(Action::EmitWalReplayBegin(height, entries.len() as usize))] + replay_from(
        entries,
        0,
    )
}

/// The step that cancels the timer for the replay of the log, where it runs.
pub open spec fn cancel_steps<P>(timer: Option<u64>) -> Seq<Step<P>> {
    match timer {
        Some(_) => seq![ignoring(Action::CancelWalReplayTimer)],
        None => Seq::empty(),
    }
}

/// Whether this node is an active validator among `validators`.
pub open spec fn active_validator(config: Config, validators: Seq<Address>) -> bool {
    config.enabled && validators.contains(config.address)
}

impl<P> StateView<P> {
    /// The current height, 0 before the first one.
    pub open spec fn height(self) -> u64 {
        match self.core {
            Some(c) => c.height,
            None => 0,
        }
    }

    /// Begin to start a height: forget what was pending for the last one, tell
    /// the others, and see to the log. A restart and a node that is no
    /// validator get an empty log.
    pub open spec fn begin_height(
        self,
        config: Config,
        height: u64,
        params: HeightParams<P>,
        is_restart: bool,
    ) -> (StateView<P>, Seq<Step<P>>) {
        let is_validator = active_validator(config, params.validators@);
        let init = match self.core {
            Some(_) => Seq::empty(),
            None => seq![ignoring(Action::InitCore(height, params.params))],
        };
        let wal = if is_restart || !is_validator {
            stopping(Action::WalReset(height))
        } else {
            fetching(height)
        };
        (
            StateView {
                core: match self.core {
                    Some(c) => Some(c),
                    None => Some(Core { height, round: Round::Nil, decided: false }),
                },
                is_validator,
                pending: Seq::empty(),
                timer: None,
                stage: StageView::AwaitWal { height, is_restart, params: params.params },
                ..self
            },
            cancel_steps(self.timer) + init + seq![
                ignoring(Action::EmitStartedHeight(height, is_restart)),
                ignoring(Action::UpdateValidatorSet(params.params)),
                wal,
            ],
        )
    }

    /// Consensus runs: tell sync of the height, if asked to, and handle the
    /// kept messages. A restart drops them.
    pub open spec fn running(self, announce: Option<(u64, bool)>) -> (StateView<P>, Seq<Step<P>>) {
        let drops = match announce {
            Some((_, is_restart)) => is_restart,
            None => false,
        };
        (
            StateView {
                phase: Phase::Running,
                stage: StageView::Idle,
                kept: if drops {
                    Seq::empty()
                } else {
                    self.kept
                },
                ..self
            },
            match announce {
                Some((height, is_restart)) => seq![
                    ignoring(Action::NotifySyncStarted(height, is_restart)),
                    failing(Action::HandleKeptMessages),
                ],
                None => seq![failing(Action::HandleKeptMessages)],
            },
        )
    }

    /// The log of the height to start holds `entries`.
    pub open spec fn wal_ready(self, entries: Seq<WalEntry<P>>) -> (StateView<P>, Seq<Step<P>>)
        recommends
            self.stage is AwaitWal,
    {
        let height = self.stage->AwaitWal_height;
        let is_restart = self.stage->AwaitWal_is_restart;
        let params = self.stage->AwaitWal_params;
        (
            StateView { stage: StageView::AwaitStart { height, is_restart, entries }, ..self },
            seq![
                ignoring(Action::SetTimeouts(params)),
                stopping(Action::Process(CoreInput::StartHeight(height, params, is_restart))),
            ],
        )
    }

    /// The core has started the height. Entries of the log are replayed, after
    /// a wait for sync if there is a delay.
    pub open spec fn core_started(self, delay: u64) -> (StateView<P>, Seq<Step<P>>)
        recommends
            self.stage is AwaitStart,
    {
        let height = self.stage->AwaitStart_height;
        let is_restart = self.stage->AwaitStart_is_restart;
        let entries = self.stage->AwaitStart_entries;
        if entries.len() > 0 && delay > 0 {
            (
                StateView {
                    phase: Phase::WaitingForSync,
                    pending: entries,
                    timer: Some(height),
                    stage: StageView::Idle,
                    ..self
                },
                seq![
                    ignoring(Action::NotifySyncStarted(height, is_restart)),
                    ignoring(Action::StartWalReplayTimer(height)),
                ],
            )
        } else if entries.len() > 0 {
            (
                StateView {
                    phase: Phase::Recovering,
                    stage: StageView::AwaitReplay { announce: Some((height, is_restart)) },
                    ..self
                },
                replay_steps(height, entries),
            )
        } else {
            self.running(Some((height, is_restart)))
        }
    }

    /// The wait for sync is over without a decision: the core starts over and
    /// the log is replayed.
    pub open spec fn end_wal_wait(self) -> (StateView<P>, Seq<Step<P>>) {
        let height = self.height();
        let rest = StateView { timer: None, pending: Seq::empty(), ..self };
        if self.pending.len() > 0 {
            (
                StateView {
                    phase: Phase::Recovering,
                    stage: StageView::AwaitReset { height, entries: self.pending },
                    ..rest
                },
                cancel_steps(self.timer) + seq![
                    stopping(Action::Process(CoreInput::ResetHeight(height))),
                ],
            )
        } else {
            let (next, steps) = rest.running(None);
            (next, cancel_steps(self.timer) + steps)
        }
    }

    /// The decision for `height` was committed. That for the current height
    /// ends the wait for sync, and the log is not replayed.
    pub open spec fn decision_committed(self, height: u64) -> (StateView<P>, Seq<Step<P>>) {
        let told = seq![ignoring(Action::NotifySyncDecided(height))];
        if self.phase == Phase::WaitingForSync && self.height() == height {
            let (next, steps) = (StateView { timer: None, pending: Seq::empty(), ..self }).running(None);
            (next, told + cancel_steps(self.timer) + steps)
        } else {
            (self, told)
        }
    }

    /// An event of the network actor.
    pub open spec fn network_event(self, config: Config, event: NetworkEvent<P>) -> (
        StateView<P>,
        Seq<Step<P>>,
    ) {
        match event {
            NetworkEvent::Listening(_) => if self.phase == Phase::Unstarted {
                (
                    StateView { phase: Phase::Ready, ..self },
                    seq![failing(Action::HostConsensusReady)],
                )
            } else {
                (self, Seq::empty())
            },
            NetworkEvent::PeerConnected(peer) => if self.peers.contains(peer) {
                (self, Seq::empty())
            } else {
                (
                    StateView { peers: self.peers.insert(peer), ..self },
                    seq![ignoring(Action::IncConnectedPeers)],
                )
            },
            NetworkEvent::PeerDisconnected(peer) => if self.peers.contains(peer) {
                (
                    StateView { peers: self.peers.remove(peer), ..self },
                    seq![ignoring(Action::DecConnectedPeers)],
                )
            } else {
                (self, Seq::empty())
            },
            NetworkEvent::Vote(_, p) => (
                self,
                seq![
                    ignoring(Action::EmitReceivedVote(p)),
                    stopping(Action::Process(CoreInput::Vote(p))),
                ],
            ),
            NetworkEvent::Proposal(_, p) => (
                self,
                seq![
                    ignoring(Action::EmitReceivedProposal(p)),
                    stopping(Action::Process(CoreInput::Proposal(p))),
                ],
            ),
            NetworkEvent::PolkaCertificate(_, p) => (
                self,
                seq![stopping(Action::Process(CoreInput::PolkaCertificate(p)))],
            ),
            NetworkEvent::RoundCertificate(_, p) => (
                self,
                seq![stopping(Action::Process(CoreInput::RoundCertificate(p)))],
            ),
            NetworkEvent::ProposalPart(from, p) => if config.proposal_only {
                (self, Seq::empty())
            } else {
                (self, seq![failing(Action::HostReceivedProposalPart(from, p))])
            },
            NetworkEvent::ValidatorProofReceived { peer_id, proof } => (
                self,
                seq![ignoring(Action::VerifyValidatorProof(peer_id, proof))],
            ),
            _ => (self, Seq::empty()),
        }
    }

    /// The state after `msg` was handled, and the steps that this takes.
    pub open spec fn handled(self, config: Config, msg: Msg<P>) -> Result<
        (StateView<P>, Seq<Step<P>>),
        HandleError,
    > {
        match msg {
            Msg::StartHeight(height, params) => if params.validators@.len() == 0 {
                Err(HandleError::EmptyValidatorSet(height))
            } else {
                Ok(self.begin_height(config, height, params, false))
            },
            Msg::RestartHeight(height, params) => if params.validators@.len() == 0 {
                Err(HandleError::EmptyValidatorSet(height))
            } else {
                Ok(self.begin_height(config, height, params, true))
            },
            Msg::NetworkEvent(event) => Ok(self.network_event(config, event)),
            Msg::TimeoutElapsed(None) => Ok((self, Seq::empty())),
            Msg::TimeoutElapsed(Some(timeout)) => Ok(
                (
                    self,
                    seq![
                        ignoring(Action::CancelTimer(timeout)),
                        stopping(Action::Process(CoreInput::TimeoutElapsed(timeout))),
                    ],
                ),
            ),
            Msg::ProposeValue(p) => Ok(
                (
                    self,
                    seq![
                        stopping(Action::Process(CoreInput::Propose(p))),
                        ignoring(Action::EmitProposedValue(p)),
                    ],
                ),
            ),
            Msg::ReceivedProposedValue(p, origin) => Ok(
                (
                    self,
                    seq![
                        ignoring(Action::EmitReceivedProposedValue(p, origin)),
                        stopping(Action::Process(CoreInput::ProposedValue(p, origin))),
                    ],
                ),
            ),
            Msg::ProcessSyncResponse(p) => Ok(
                (self, seq![stopping(Action::Process(CoreInput::SyncValueResponse(p)))]),
            ),
            Msg::DecisionCommitted(height) => Ok(self.decision_committed(height)),
            Msg::WalReplayDelayElapsed(height) => if self.phase != Phase::WaitingForSync
                || self.height() != height || (self.core matches Some(c) && c.decided) {
                Ok((self, Seq::empty()))
            } else {
                Ok(self.end_wal_wait())
            },
            Msg::DumpState => Ok((self, seq![ignoring(Action::ReplyStateDump(self.core is Some))])),
        }
    }
}

fn ignore<P>(action: Action<P>) -> (r: Step<P>)
    ensures
        r == ignoring(action),
{
    Step { action, on_failure: OnFailure::Ignore }
}

fn fail<P>(action: Action<P>) -> (r: Step<P>)
    ensures
        r == failing(action),
{
    Step { action, on_failure: OnFailure::Fail }
}

fn stop<P>(action: Action<P>) -> (r: Step<P>)
    ensures
        r == stopping(action),
{
    Step { action, on_failure: OnFailure::Stop }
}

/// What the actor does with a message.
pub enum Handled<P> {
    /// The message was kept for later, or dropped where no more are kept.
    Kept,
    /// The steps to carry out.
    Steps(Vec<Step<P>>),
}

impl<P: Ident> State<P> {
    /// The peers are kept in order, and no more messages than allowed.
    pub open spec fn wf(self) -> bool {
        self.connected_peers.wf() && self.msg_buffer@.len() <= MAX_BUFFER_SIZE
    }

    /// The state of an actor that has not started.
    pub fn new() -> (r: Self)
        ensures
            r.wf(),
            r@ == (StateView::<P> {
                core: None,
                peers: Set::empty(),
                phase: Phase::Unstarted,
                is_validator: false,
                kept: Seq::empty(),
                pending: Seq::empty(),
                timer: None,
                stage: StageView::Idle,
            }),
    {
        let r = State {
            core: None,
            connected_peers: OrdMap::new(),
            phase: Phase::Unstarted,
            is_validator: false,
            msg_buffer: Vec::new(),
            pending_wal_entries: Vec::new(),
            wal_replay_timer: None,
            stage: Stage::Idle,
        };
        proof {
            assert(r@.peers =~= Set::<PeerId>::empty());
            assert(r@.kept =~= Seq::<Msg<P>>::empty());
            assert(r@.pending =~= Seq::<WalEntry<P>>::empty());
        }
        r
    }

    /// The current height, 0 before the first one.
    pub fn height(&self) -> (r: u64)
        ensures
            r == self@.height(),
    {
        match self.core {
            Some(c) => c.height,
            None => 0,
        }
    }

    /// The current round.
    pub fn round(&self) -> (r: Round)
        ensures
            r == (match self.core {
                Some(c) => c.round,
                None => Round::Nil,
            }),
    {
        match self.core {
            Some(c) => c.round,
            None => Round::Nil,
        }
    }

    /// Take note of where the core is after it processed an input.
    pub fn observe(&mut self, core: Core)
        requires
            old(self).wf(),
        ensures
            final(self).wf(),
            final(self)@ == (StateView { core: Some(core), ..old(self)@ }),
    {
        self.core = Some(core);
    }

    /// Handle `msg`, or keep it for later while consensus is not running.
    /// While waiting for sync, what belongs to applying its certificate is
    /// handled.
    pub fn handle(&mut self, config: &Config, msg: Msg<P>) -> (r: Result<Handled<P>, HandleError>)
        requires
            old(self).wf(),
        ensures
            final(self).wf(),
            if kept_for_later(old(self).phase, msg) {
                &&& r == Ok::<Handled<P>, HandleError>(Handled::Kept)
                &&& final(self)@ == (StateView {
                    kept: if old(self)@.kept.len() < MAX_BUFFER_SIZE {
                        old(self)@.kept.push(msg)
                    } else {
                        old(self)@.kept
                    },
                    ..old(self)@
                })
            } else {
                match old(self)@.handled(*config, msg) {
                    Ok((next, steps)) => final(self)@ == next && (r matches Ok(Handled::Steps(s)) && s@
                        == steps),
                    Err(e) => r == Err::<Handled<P>, HandleError>(e) && final(self)@ == old(self)@,
                }
            },
    {
        let bypass_buffer = self.phase == Phase::WaitingForSync && is_sync_application_msg(&msg);
        if !bypass_buffer && self.phase != Phase::Running && should_buffer(&msg) {
            if self.msg_buffer.len() < MAX_BUFFER_SIZE {
                self.msg_buffer.push(msg);
            }
            return Ok(Handled::Kept);
        }
        match self.handle_msg(config, msg) {
            Ok(steps) => Ok(Handled::Steps(steps)),
            Err(e) => Err(e),
        }
    }

    /// The oldest kept message, taken out.
    pub fn next_kept(&mut self) -> (r: Option<Msg<P>>)
        requires
            old(self).wf(),
        ensures
            final(self).wf(),
            match r {
                Some(m) => old(self)@.kept.len() > 0 && m == old(self)@.kept[0] && final(self)@ == (
                StateView { kept: old(self)@.kept.drop_first(), ..old(self)@ }),
                None => old(self)@.kept.len() == 0 && final(self)@ == old(self)@,
            },
    {
        if self.msg_buffer.len() == 0 {
            None
        } else {
            let m = self.msg_buffer.remove(0);
            assert(self.msg_buffer@ =~= old(self)@.kept.drop_first());
            Some(m)
        }
    }

    /// Handle `msg`.
    pub fn handle_msg(&mut self, config: &Config, msg: Msg<P>) -> (r: Result<Vec<Step<P>>, HandleError>)
        requires
            old(self).wf(),
        ensures
            final(self).wf(),
            match old(self)@.handled(*config, msg) {
                Ok((next, steps)) => final(self)@ == next && (r matches Ok(s) && s@ == steps),
                Err(e) => r == Err::<Vec<Step<P>>, HandleError>(e) && final(self)@ == old(self)@,
            },
    {
        let mut steps: Vec<Step<P>> = Vec::new();
        assert(steps@ =~= Seq::<Step<P>>::empty());
        match msg {
            Msg::StartHeight(height, params) => {
                if params.validators.len() == 0 {
                    return Err(HandleError::EmptyValidatorSet(height));
                }
                Ok(self.begin_height(config, height, params, false))
            },
            Msg::RestartHeight(height, params) => {
                if params.validators.len() == 0 {
                    return Err(HandleError::EmptyValidatorSet(height));
                }
                Ok(self.begin_height(config, height, params, true))
            },
            Msg::NetworkEvent(event) => Ok(self.handle_network_event(config, event)),
            Msg::TimeoutElapsed(elapsed) => {
                match elapsed {
                    None => {},
                    Some(timeout) => {
                        steps.push(ignore(Action::CancelTimer(timeout)));
                        steps.push(stop(Action::Process(CoreInput::TimeoutElapsed(timeout))));
                        assert(steps@ =~= old(self)@.handled(*config, msg)->Ok_0.1);
                    },
                }
                Ok(steps)
            },
            Msg::ProposeValue(p) => {
                let announced = p.dup();
                steps.push(stop(Action::Process(CoreInput::Propose(p))));
                steps.push(ignore(Action::EmitProposedValue(announced)));
                assert(steps@ =~= old(self)@.handled(*config, msg)->Ok_0.1);
                Ok(steps)
            },
            Msg::ReceivedProposedValue(p, origin) => {
                let announced = p.dup();
                steps.push(ignore(Action::EmitReceivedProposedValue(announced, origin)));
                steps.push(stop(Action::Process(CoreInput::ProposedValue(p, origin))));
                assert(steps@ =~= old(self)@.handled(*config, msg)->Ok_0.1);
                Ok(steps)
            },
            Msg::ProcessSyncResponse(p) => {
                steps.push(stop(Action::Process(CoreInput::SyncValueResponse(p))));
                assert(steps@ =~= old(self)@.handled(*config, msg)->Ok_0.1);
                Ok(steps)
            },
            Msg::DecisionCommitted(height) => Ok(self.decision_committed(height)),
            Msg::WalReplayDelayElapsed(height) => {
                if self.phase != Phase::WaitingForSync || self.height() != height {
                    return Ok(steps);
                }
                let decided = match self.core {
                    Some(c) => c.decided,
                    None => false,
                };
                if decided {
                    return Ok(steps);
                }
                Ok(self.end_wal_wait())
            },
            Msg::DumpState => {
                steps.push(ignore(Action::ReplyStateDump(self.core.is_some())));
                assert(steps@ =~= old(self)@.handled(*config, msg)->Ok_0.1);
                Ok(steps)
            },
        }
    }

    /// Whether this node is an active validator among `validators`.
    fn is_active(config: &Config, validators: &Vec<Address>) -> (r: bool)
        ensures
            r == active_validator(*config, validators@),
    {
        if !config.enabled {
            return false;
        }
        let mut i: usize = 0;
        while i < validators.len()
            invariant
                config.enabled,
                i <= validators@.len(),
                forall|j: int| 0 <= j < i ==> #[trigger] validators@[j] != config.address,
            decreases validators@.len() - i,
        {
            if validators[i].same(&config.address) {
                return true;
            }
            i = i + 1;
        }
        false
    }

    /// Begin to start a height.
    fn begin_height(&mut self, config: &Config, height: u64, params: HeightParams<P>, is_restart: bool) -> (r:
        Vec<Step<P>>)
        requires
            old(self).wf(),
        ensures
            final(self).wf(),
            (final(self)@, r@) == old(self)@.begin_height(*config, height, params, is_restart),
    {
        let ghost want = self@.begin_height(*config, height, params, is_restart);
        let mut steps: Vec<Step<P>> = Vec::new();
        self.pending_wal_entries.clear();
        if self.wal_replay_timer.is_some() {
            self.wal_replay_timer = None;
            steps.push(ignore(Action::CancelWalReplayTimer));
        }
        if self.core.is_none() {
            self.core = Some(Core { height, round: Round::Nil, decided: false });
            steps.push(ignore(Action::InitCore(height, params.params.dup())));
        }
        steps.push(ignore(Action::EmitStartedHeight(height, is_restart)));
        self.is_validator = Self::is_active(config, &params.validators);
        steps.push(ignore(Action::UpdateValidatorSet(params.params.dup())));
        if is_restart || !self.is_validator {
            steps.push(stop(Action::WalReset(height)));
        } else {
            steps.push(
                Step { action: Action::WalFetch(height), on_failure: OnFailure::TellAndStop },
            );
        }
        self.stage = Stage::AwaitWal { height, is_restart, params: params.params };
        assert(steps@ =~= want.1);
        assert(self@.pending =~= want.0.pending);
        assert(self@ == want.0);
        steps
    }

    /// Consensus runs.
    fn run(&mut self, announce: Option<(u64, bool)>) -> (r: Vec<Step<P>>)
        requires
            old(self).wf(),
        ensures
            final(self).wf(),
            (final(self)@, r@) == old(self)@.running(announce),
    {
        let ghost want = self@.running(announce);
        let mut steps: Vec<Step<P>> = Vec::new();
        self.phase = Phase::Running;
        self.stage = Stage::Idle;
        match announce {
            Some((height, is_restart)) => {
                if is_restart {
                    self.msg_buffer.clear();
                }
                steps.push(ignore(Action::NotifySyncStarted(height, is_restart)));
            },
            None => {},
        }
        steps.push(fail(Action::HandleKeptMessages));
        assert(steps@ =~= want.1);
        assert(self@.kept =~= want.0.kept);
        assert(self@ == want.0);
        steps
    }

    /// The log of the height to start holds `entries`; none after it was
    /// emptied.
    pub fn wal_ready(&mut self, entries: Vec<WalEntry<P>>) -> (r: Vec<Step<P>>)
        requires
            old(self).wf(),
            old(self).stage is AwaitWal,
        ensures
            final(self).wf(),
            (final(self)@, r@) == old(self)@.wal_ready(entries@),
    {
        let ghost want = self@.wal_ready(entries@);
        let mut steps: Vec<Step<P>> = Vec::new();
        let mut stage = Stage::Idle;
        std::mem::swap(&mut stage, &mut self.stage);
        match stage {
            Stage::AwaitWal { height, is_restart, params } => {
                steps.push(ignore(Action::SetTimeouts(params.dup())));
                steps.push(
                    stop(Action::Process(CoreInput::StartHeight(height, params, is_restart))),
                );
                self.stage = Stage::AwaitStart { height, is_restart, entries };
            },
            _ => {},
        }
        assert(steps@ =~= want.1);
        steps
    }

    /// The core has started the height.
    pub fn core_started(&mut self, config: &Config) -> (r: Vec<Step<P>>)
        requires
            old(self).wf(),
            old(self).stage is AwaitStart,
        ensures
            final(self).wf(),
            (final(self)@, r@) == old(self)@.core_started(config.wal_replay_delay),
    {
        let ghost before = self@;
        let ghost want = self@.core_started(config.wal_replay_delay);
        let mut steps: Vec<Step<P>> = Vec::new();
        let mut stage = Stage::Idle;
        std::mem::swap(&mut stage, &mut self.stage);
        match stage {
            Stage::AwaitStart { height, is_restart, entries } => {
                if entries.len() > 0 && config.wal_replay_delay > 0 {
                    self.phase = Phase::WaitingForSync;
                    self.pending_wal_entries = entries;
                    steps.push(ignore(Action::NotifySyncStarted(height, is_restart)));
                    steps.push(ignore(Action::StartWalReplayTimer(height)));
                    self.wal_replay_timer = Some(height);
                    assert(steps@ =~= want.1);
                    assert(self@ == want.0);
                    return steps;
                }
                if entries.len() > 0 {
                    self.phase = Phase::Recovering;
                    self.stage = Stage::AwaitReplay { announce: Some((height, is_restart)) };
                    return wal_replay(height, entries);
                }
                assert(StateView { stage: before.stage, ..self@ } == before);
                let steps = self.run(Some((height, is_restart)));
                assert(self@ == want.0);
                steps
            },
            _ => steps,
        }
    }

    /// The core has started the current height over, after the wait for sync.
    pub fn core_reset(&mut self) -> (r: Vec<Step<P>>)
        requires
            old(self).wf(),
            old(self).stage is AwaitReset,
        ensures
            final(self).wf(),
            final(self)@ == (StateView {
                stage: StageView::AwaitReplay { announce: None },
                ..old(self)@
            }),
            r@ == replay_steps(
                old(self)@.stage->AwaitReset_height,
                old(self)@.stage->AwaitReset_entries,
            ),
    {
        let mut stage = Stage::AwaitReplay { announce: None };
        std::mem::swap(&mut stage, &mut self.stage);
        match stage {
            Stage::AwaitReset { height, entries } => wal_replay(height, entries),
            _ => Vec::new(),
        }
    }

    /// The log was replayed in full.
    pub fn replay_finished(&mut self) -> (r: Vec<Step<P>>)
        requires
            old(self).wf(),
            old(self).stage is AwaitReplay,
        ensures
            final(self).wf(),
            (final(self)@, r@) == old(self)@.running(old(self)@.stage->AwaitReplay_announce),
    {
        let announce = match &self.stage {
            Stage::AwaitReplay { announce } => *announce,
            _ => None,
        };
        self.run(announce)
    }

    /// The wait for sync is over without a decision.
    fn end_wal_wait(&mut self) -> (r: Vec<Step<P>>)
        requires
            old(self).wf(),
        ensures
            final(self).wf(),
            (final(self)@, r@) == old(self)@.end_wal_wait(),
    {
        let ghost want = self@.end_wal_wait();
        let mut steps: Vec<Step<P>> = Vec::new();
        if self.wal_replay_timer.is_some() {
            self.wal_replay_timer = None;
            steps.push(ignore(Action::CancelWalReplayTimer));
        }
        let height: u64 = self.height();
        let mut entries: Vec<WalEntry<P>> = Vec::new();
        std::mem::swap(&mut entries, &mut self.pending_wal_entries);
        assert(self@.pending =~= Seq::<WalEntry<P>>::empty());
        if entries.len() > 0 {
            self.phase = Phase::Recovering;
            self.stage = Stage::AwaitReset { height, entries };
            steps.push(stop(Action::Process(CoreInput::ResetHeight(height))));
            assert(steps@ =~= want.1);
            assert(self@ == want.0);
            return steps;
        }
        let ghost rest = self@;
        let mut more = self.run(None);
        steps.append(&mut more);
        assert(steps@ =~= want.1);
        steps
    }

    /// The decision for `height` was committed.
    fn decision_committed(&mut self, height: u64) -> (r: Vec<Step<P>>)
        requires
            old(self).wf(),
        ensures
            final(self).wf(),
            (final(self)@, r@) == old(self)@.decision_committed(height),
    {
        let ghost want = self@.decision_committed(height);
        let mut steps: Vec<Step<P>> = Vec::new();
        steps.push(ignore(Action::NotifySyncDecided(height)));
        let current_height: u64 = self.height();
        if should_end_waiting_for_sync(self.phase, current_height, height) {
            if self.wal_replay_timer.is_some() {
                self.wal_replay_timer = None;
                steps.push(ignore(Action::CancelWalReplayTimer));
            }
            self.pending_wal_entries.clear();
            assert(self@.pending =~= Seq::<WalEntry<P>>::empty());
            let mut more = self.run(None);
            steps.append(&mut more);
        }
        assert(steps@ =~= want.1);
        steps
    }

    /// Handle an event of the network actor.
    fn handle_network_event(&mut self, config: &Config, event: NetworkEvent<P>) -> (r: Vec<Step<P>>)
        requires
            old(self).wf(),
        ensures
            final(self).wf(),
            (final(self)@, r@) == old(self)@.network_event(*config, event),
    {
        let ghost want = self@.network_event(*config, event);
        let mut steps: Vec<Step<P>> = Vec::new();
        match event {
            NetworkEvent::Listening(_) => {
                if self.phase == Phase::Unstarted {
                    self.phase = Phase::Ready;
                    steps.push(fail(Action::HostConsensusReady));
                }
            },
            NetworkEvent::PeerConnected(peer) => {
                if self.connected_peers.insert(peer, ()).is_none() {
                    steps.push(ignore(Action::IncConnectedPeers));
                }
                assert(self@.peers =~= want.0.peers);
            },
            NetworkEvent::PeerDisconnected(peer) => {
                if self.connected_peers.remove(&peer).is_some() {
                    steps.push(ignore(Action::DecConnectedPeers));
                }
                assert(self@.peers =~= want.0.peers);
            },
            NetworkEvent::Vote(_, p) => {
                steps.push(ignore(Action::EmitReceivedVote(p.dup())));
                steps.push(stop(Action::Process(CoreInput::Vote(p))));
            },
            NetworkEvent::Proposal(_, p) => {
                steps.push(ignore(Action::EmitReceivedProposal(p.dup())));
                steps.push(stop(Action::Process(CoreInput::Proposal(p))));
            },
            NetworkEvent::PolkaCertificate(_, p) => {
                steps.push(stop(Action::Process(CoreInput::PolkaCertificate(p))));
            },
            NetworkEvent::RoundCertificate(_, p) => {
                steps.push(stop(Action::Process(CoreInput::RoundCertificate(p))));
            },
            NetworkEvent::ProposalPart(from, p) => {
                if !config.proposal_only {
                    steps.push(fail(Action::HostReceivedProposalPart(from, p)));
                }
            },
            NetworkEvent::ValidatorProofReceived { peer_id, proof } => {
                steps.push(ignore(Action::VerifyValidatorProof(peer_id, proof)));
            },
            _ => {},
        }
        assert(steps@ =~= want.1);
        assert(self@ == want.0);
        steps
    }
}

/// The steps for replaying `entries` of the log of `height`.
fn wal_replay<P: Ident>(height: u64, entries: Vec<WalEntry<P>>) -> (r: Vec<Step<P>>)
    ensures
        r@ == replay_steps(height, entries@),
{
    let mut steps: Vec<Step<P>> = Vec::new();
    steps.push(ignore(Action::EmitWalReplayBegin(height, entries.len())));
    let mut i: usize = 0;
    assert(steps@ + replay_from(entries@, 0) =~= replay_steps(height, entries@));
    while i < entries.len()
        invariant
            i <= entries@.len(),
            steps@ + replay_from(entries@, i as int) =~= replay_steps(height, entries@),
        decreases entries@.len() - i,
    {
        let ghost before = steps@;
        match &entries[i] {
            WalEntry::Corrupt => {
                steps.push(ignore(Action::EmitWalCorrupted));
                steps.push(ignore(Action::HangOnCorruptEntry));
                assert(steps@ =~= before + replay_from(entries@, i as int));
                return steps;
            },
            WalEntry::Input(p) => {
                steps.push(ignore(Action::EmitWalReplayEntry(p.dup())));
                steps.push(
                    Step {
                        action: Action::Process(CoreInput::Replayed(p.dup())),
                        on_failure: OnFailure::TellAndHang,
                    },
                );
                assert(steps@ + replay_from(entries@, i + 1) =~= before + replay_from(
                    entries@,
                    i as int,
                ));
            },
        }
        i = i + 1;
    }
    steps.push(ignore(Action::EmitWalReplayDone));
    assert(steps@ =~= replay_steps(height, entries@));
    steps
}

} // verus!
