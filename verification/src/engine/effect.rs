//! The effects of the consensus core, and the steps that the consensus actor
//! takes for each of them.

use vstd::prelude::*;

use crate::engine::consensus::{
    failing, hanging, ignoring, Action, CertificateKind, LivenessKind, OnFailure, Phase, Step,
};
use crate::engine::event::PeerId;
use crate::ident::Ident;
use crate::types::{Round, Timeout};

verus! {

/// What the core asks for. `P` is what it hands on.
pub enum Effect<P> {
    /// Cancel all timeouts.
    CancelAllTimeouts,
    /// Cancel a timeout.
    CancelTimeout(Timeout),
    /// Schedule a timeout.
    ScheduleTimeout(Timeout),
    /// A round was started; its proposer and the role of this node.
    StartRound(u64, Round, P),
    /// Sign a proposal.
    SignProposal(P),
    /// Sign a vote.
    SignVote(P),
    /// Verify the signature of a vote.
    VerifyVoteSignature(P),
    /// Verify the signature of a proposal.
    VerifyProposalSignature(P),
    /// Verify a commit certificate.
    VerifyCommitCertificate(P),
    /// Verify a polka certificate.
    VerifyPolkaCertificate(P),
    /// Verify a commit certificate with vote extensions.
    VerifyExtendedCommitCertificate(P),
    /// Verify a round certificate.
    VerifyRoundCertificate(P),
    /// Extend a vote.
    ExtendVote(P),
    /// Verify a vote extension.
    VerifyVoteExtension(P),
    /// Publish a consensus message.
    PublishConsensusMsg(P),
    /// Publish a liveness message.
    PublishLivenessMsg(LivenessKind, P),
    /// Send a vote again.
    RepublishVote(P),
    /// Send a round certificate again.
    RepublishRoundCertificate(P),
    /// Get a value to propose, within a timeout.
    GetValue(u64, Round, Timeout),
    /// Send a proposed value again.
    RestreamProposal(P),
    /// A value was decided at this height, with this many signatures.
    Decide(u64, usize, P),
    /// A height is final, with this many signatures. Per equivocator, the number
    /// of pairs of proposals, and of votes.
    Finalize(usize, P, Vec<usize>, Vec<usize>),
    /// A value from sync was rejected on account of its certificate. The
    /// height of the certificate where it is invalid.
    CertRejectedSyncValue(PeerId, u64, Option<u64>),
    /// The certificate of a value from sync is valid.
    CertVerifiedSyncValue(P),
    /// Append an entry to the log of this height.
    WalAppend(u64, P),
}

/// Whether the log is written: not while it is replayed, and only by a
/// validator.
pub open spec fn writes_wal(phase: Phase, is_validator: bool) -> bool {
    phase != Phase::Recovering && is_validator
}

/// The step that brings the log to disk, where it is written at all.
pub open spec fn flush_steps<P>(phase: Phase, is_validator: bool) -> Seq<Step<P>> {
    if writes_wal(phase, is_validator) {
        seq![hanging(Action::WalFlush)]
    } else {
        Seq::empty()
    }
}

/// The sum of `counts`.
pub open spec fn sum_of(counts: Seq<usize>) -> nat
    decreases counts.len(),
{
    if counts.len() == 0 {
        0
    } else {
        sum_of(counts.drop_last()) + counts.last() as nat
    }
}

/// The steps that count equivocations.
pub open spec fn equivocation_steps<P>(proposals: nat, votes: nat) -> Seq<Step<P>> {
    let first = if proposals > 0 {
        seq![ignoring(Action::CountEquivocationProposals(proposals as usize))]
    } else {
        Seq::empty()
    };
    if votes > 0 {
        first.push(ignoring(Action::CountEquivocationVotes(votes as usize)))
    } else {
        first
    }
}

/// The event for a liveness message that is about to be published.
pub open spec fn liveness_event<P>(kind: LivenessKind, p: P) -> Action<P> {
    match kind {
        LivenessKind::Vote => Action::EmitRepublishVote(p),
        LivenessKind::PolkaCertificate => Action::EmitPolkaCertificate(p),
        LivenessKind::SkipRoundCertificate => Action::EmitSkipRoundCertificate(p),
    }
}

/// The steps for `effect`. What is signed leaves the node, and a decision or a
/// new round is acted on, only after the log is on disk.
pub open spec fn effect_steps<P>(phase: Phase, is_validator: bool, effect: Effect<P>) -> Seq<Step<P>> {
    let flush = flush_steps(phase, is_validator);
    match effect {
        Effect::CancelAllTimeouts => seq![ignoring(Action::CancelAllTimers)],
        Effect::CancelTimeout(t) => seq![ignoring(Action::CancelTimer(t))],
        Effect::ScheduleTimeout(t) => seq![ignoring(Action::StartTimer(t))],
        Effect::StartRound(height, round, p) => flush + seq![
            failing(Action::HostStartedRound(height, round, p)),
            ignoring(Action::CastUndecidedValues),
            ignoring(Action::EmitStartedRound(height, round, p)),
        ],
        Effect::SignProposal(p) => seq![failing(Action::SignProposal(p))],
        Effect::SignVote(p) => seq![failing(Action::SignVote(p))],
        Effect::VerifyVoteSignature(p) => seq![failing(Action::VerifyVote(p))],
        Effect::VerifyProposalSignature(p) => seq![failing(Action::VerifyProposal(p))],
        Effect::VerifyCommitCertificate(p) => seq![
            ignoring(Action::VerifyCertificate(CertificateKind::Commit, p)),
        ],
        Effect::VerifyPolkaCertificate(p) => seq![
            ignoring(Action::VerifyCertificate(CertificateKind::Polka, p)),
        ],
        Effect::VerifyExtendedCommitCertificate(p) => seq![
            ignoring(Action::VerifyCertificate(CertificateKind::ExtendedCommit, p)),
        ],
        Effect::VerifyRoundCertificate(p) => seq![
            ignoring(Action::VerifyCertificate(CertificateKind::Round, p)),
        ],
        Effect::ExtendVote(p) => seq![failing(Action::HostExtendVote(p))],
        Effect::VerifyVoteExtension(p) => seq![failing(Action::VerifyVoteExtensionSignature(p))],
        Effect::PublishConsensusMsg(p) => flush + seq![
            ignoring(Action::EmitPublished(p)),
            failing(Action::PublishConsensusMsg(p)),
        ],
        Effect::PublishLivenessMsg(kind, p) => seq![
            ignoring(liveness_event(kind, p)),
            failing(Action::PublishLivenessMsg(kind, p)),
        ],
        Effect::RepublishVote(p) => seq![
            ignoring(Action::EmitRepublishVote(p)),
            failing(Action::PublishLivenessMsg(LivenessKind::Vote, p)),
        ],
        Effect::RepublishRoundCertificate(p) => seq![
            ignoring(Action::EmitRebroadcastRoundCertificate(p)),
            failing(Action::PublishLivenessMsg(LivenessKind::SkipRoundCertificate, p)),
        ],
        Effect::GetValue(height, round, timeout) => seq![
            failing(Action::HostGetValue(height, round, timeout)),
        ],
        Effect::RestreamProposal(p) => seq![failing(Action::HostRestreamValue(p))],
        Effect::Decide(height, _, p) => flush + seq![
            ignoring(Action::EmitDecided(p)),
            failing(Action::HostDecided(height, p)),
        ],
        Effect::Finalize(_, p, proposals, votes) => equivocation_steps(
            sum_of(proposals@),
            sum_of(votes@),
        ) + seq![ignoring(Action::EmitFinalized(p)), failing(Action::HostFinalized(p))],
        Effect::CertRejectedSyncValue(peer, height, certificate) => match certificate {
            Some(h) => seq![ignoring(Action::NotifySyncPeerFault(peer, h))],
            None => seq![ignoring(Action::NotifySyncLocalTransientError(height))],
        },
        Effect::CertVerifiedSyncValue(p) => seq![failing(Action::HostProcessSyncedValue(p))],
        Effect::WalAppend(height, p) => if writes_wal(phase, is_validator) {
            seq![hanging(Action::WalAppend(height, p))]
        } else {
            Seq::empty()
        },
    }
}

fn step<P>(action: Action<P>, on_failure: OnFailure) -> (r: Step<P>)
    ensures
        r == (Step { action, on_failure }),
{
    Step { action, on_failure }
}

/// The step that appends an entry to the log, where it is written at all.
pub fn wal_append<P>(height: u64, entry: P, phase: Phase, is_validator: bool) -> (r: Option<Step<P>>)
    ensures
        r == if writes_wal(phase, is_validator) {
            Some(hanging(Action::WalAppend(height, entry)))
        } else {
            None
        },
{
    if phase == Phase::Recovering || !is_validator {
        None
    } else {
        Some(step(Action::WalAppend(height, entry), OnFailure::Hang))
    }
}

/// The step that brings the log to disk, where it is written at all.
pub fn wal_flush<P>(phase: Phase, is_validator: bool) -> (r: Option<Step<P>>)
    ensures
        r == if writes_wal(phase, is_validator) {
            Some(hanging(Action::<P>::WalFlush))
        } else {
            None
        },
{
    if phase == Phase::Recovering || !is_validator {
        None
    } else {
        Some(step(Action::WalFlush, OnFailure::Hang))
    }
}

/// The sum of `counts`.
fn sum(counts: &Vec<usize>) -> (r: usize)
    requires
        sum_of(counts@) <= usize::MAX,
    ensures
        r == sum_of(counts@),
{
    let mut total: usize = 0;
    let mut i: usize = 0;
    assert(counts@.subrange(0, 0) =~= Seq::<usize>::empty());
    while i < counts.len()
        invariant
            sum_of(counts@) <= usize::MAX,
            i <= counts@.len(),
            total == sum_of(counts@.subrange(0, i as int)),
        decreases counts@.len() - i,
    {
        proof {
            assert(counts@.subrange(0, i + 1).drop_last() =~= counts@.subrange(0, i as int));
            lemma_sum_prefix(counts@, i + 1);
        }
        total = total + counts[i];
        i = i + 1;
    }
    assert(counts@.subrange(0, i as int) =~= counts@);
    total
}

proof fn lemma_sum_prefix(counts: Seq<usize>, n: int)
    requires
        0 <= n <= counts.len(),
    ensures
        sum_of(counts.subrange(0, n)) <= sum_of(counts),
    decreases counts.len() - n,
{
    if n == counts.len() {
        assert(counts.subrange(0, n) =~= counts);
    } else {
        lemma_sum_prefix(counts, n + 1);
        assert(counts.subrange(0, n + 1).drop_last() =~= counts.subrange(0, n));
    }
}

/// The steps for `effect`, in `phase`, on a node that is a validator or not.
pub fn handle_effect<P: Ident>(phase: Phase, is_validator: bool, effect: Effect<P>) -> (r: Vec<Step<P>>)
    requires
        effect matches Effect::Decide(_, signatures, _) ==> signatures > 0,
        effect matches Effect::Finalize(signatures, _, _, _) ==> signatures > 0,
        effect matches Effect::Finalize(_, _, proposals, votes) ==> sum_of(proposals@) <= usize::MAX
            && sum_of(votes@) <= usize::MAX,
    ensures
        r@ == effect_steps(phase, is_validator, effect),
{
    let ghost want = effect_steps(phase, is_validator, effect);
    let mut steps: Vec<Step<P>> = Vec::new();
    match effect {
        Effect::CancelAllTimeouts => {
            steps.push(step(Action::CancelAllTimers, OnFailure::Ignore));
        },
        Effect::CancelTimeout(t) => {
            steps.push(step(Action::CancelTimer(t), OnFailure::Ignore));
        },
        Effect::ScheduleTimeout(t) => {
            steps.push(step(Action::StartTimer(t), OnFailure::Ignore));
        },
        Effect::StartRound(height, round, p) => {
            if let Some(flush) = wal_flush(phase, is_validator) {
                steps.push(flush);
            }
            steps.push(step(Action::HostStartedRound(height, round, p.dup()), OnFailure::Fail));
            steps.push(step(Action::CastUndecidedValues, OnFailure::Ignore));
            steps.push(step(Action::EmitStartedRound(height, round, p), OnFailure::Ignore));
        },
        Effect::SignProposal(p) => {
            steps.push(step(Action::SignProposal(p), OnFailure::Fail));
        },
        Effect::SignVote(p) => {
            steps.push(step(Action::SignVote(p), OnFailure::Fail));
        },
        Effect::VerifyVoteSignature(p) => {
            steps.push(step(Action::VerifyVote(p), OnFailure::Fail));
        },
        Effect::VerifyProposalSignature(p) => {
            steps.push(step(Action::VerifyProposal(p), OnFailure::Fail));
        },
        Effect::VerifyCommitCertificate(p) => {
            steps.push(
                step(Action::VerifyCertificate(CertificateKind::Commit, p), OnFailure::Ignore),
            );
        },
        Effect::VerifyPolkaCertificate(p) => {
            steps.push(
                step(Action::VerifyCertificate(CertificateKind::Polka, p), OnFailure::Ignore),
            );
        },
        Effect::VerifyExtendedCommitCertificate(p) => {
            steps.push(
                step(
                    Action::VerifyCertificate(CertificateKind::ExtendedCommit, p),
                    OnFailure::Ignore,
                ),
            );
        },
        Effect::VerifyRoundCertificate(p) => {
            steps.push(
                step(Action::VerifyCertificate(CertificateKind::Round, p), OnFailure::Ignore),
            );
        },
        Effect::ExtendVote(p) => {
            steps.push(step(Action::HostExtendVote(p), OnFailure::Fail));
        },
        Effect::VerifyVoteExtension(p) => {
            steps.push(step(Action::VerifyVoteExtensionSignature(p), OnFailure::Fail));
        },
        Effect::PublishConsensusMsg(p) => {
            if let Some(flush) = wal_flush(phase, is_validator) {
                steps.push(flush);
            }
            steps.push(step(Action::EmitPublished(p.dup()), OnFailure::Ignore));
            steps.push(step(Action::PublishConsensusMsg(p), OnFailure::Fail));
        },
        Effect::PublishLivenessMsg(kind, p) => {
            let event = match kind {
                LivenessKind::Vote => Action::EmitRepublishVote(p.dup()),
                LivenessKind::PolkaCertificate => Action::EmitPolkaCertificate(p.dup()),
                LivenessKind::SkipRoundCertificate => Action::EmitSkipRoundCertificate(p.dup()),
            };
            steps.push(step(event, OnFailure::Ignore));
            steps.push(step(Action::PublishLivenessMsg(kind, p), OnFailure::Fail));
        },
        Effect::RepublishVote(p) => {
            steps.push(step(Action::EmitRepublishVote(p.dup()), OnFailure::Ignore));
            steps.push(step(Action::PublishLivenessMsg(LivenessKind::Vote, p), OnFailure::Fail));
        },
        Effect::RepublishRoundCertificate(p) => {
            steps.push(step(Action::EmitRebroadcastRoundCertificate(p.dup()), OnFailure::Ignore));
            steps.push(
                step(
                    Action::PublishLivenessMsg(LivenessKind::SkipRoundCertificate, p),
                    OnFailure::Fail,
                ),
            );
        },
        Effect::GetValue(height, round, timeout) => {
            steps.push(step(Action::HostGetValue(height, round, timeout), OnFailure::Fail));
        },
        Effect::RestreamProposal(p) => {
            steps.push(step(Action::HostRestreamValue(p), OnFailure::Fail));
        },
        Effect::Decide(height, _, p) => {
            if let Some(flush) = wal_flush(phase, is_validator) {
                steps.push(flush);
            }
            steps.push(step(Action::EmitDecided(p.dup()), OnFailure::Ignore));
            steps.push(step(Action::HostDecided(height, p), OnFailure::Fail));
        },
        Effect::Finalize(_, p, proposals, votes) => {
            let proposal_count: usize = sum(&proposals);
            let vote_count: usize = sum(&votes);
            if proposal_count > 0 {
                steps.push(
                    step(Action::CountEquivocationProposals(proposal_count), OnFailure::Ignore),
                );
            }
            if vote_count > 0 {
                steps.push(step(Action::CountEquivocationVotes(vote_count), OnFailure::Ignore));
            }
            steps.push(step(Action::EmitFinalized(p.dup()), OnFailure::Ignore));
            steps.push(step(Action::HostFinalized(p), OnFailure::Fail));
        },
        Effect::CertRejectedSyncValue(peer, height, certificate) => {
            match certificate {
                Some(h) => {
                    steps.push(step(Action::NotifySyncPeerFault(peer, h), OnFailure::Ignore));
                },
                None => {
                    steps.push(
                        step(Action::NotifySyncLocalTransientError(height), OnFailure::Ignore),
                    );
                },
            }
        },
        Effect::CertVerifiedSyncValue(p) => {
            steps.push(step(Action::HostProcessSyncedValue(p), OnFailure::Fail));
        },
        Effect::WalAppend(height, p) => {
            if let Some(append) = wal_append(height, p, phase, is_validator) {
                steps.push(append);
            }
        },
    }
    assert(steps@ =~= want);
    steps
}

/// The step that follows once the application was asked to extend a vote:
/// what it returned is signed. A vote whose extension cannot be signed goes
/// without.
pub fn extend_vote<P>(extension: Option<P>) -> (r: Option<Step<P>>)
    ensures
        r == (match extension {
            Some(e) => Some(ignoring(Action::SignVoteExtension(e))),
            None => None,
        }),
{
    match extension {
        Some(e) => Some(step(Action::SignVoteExtension(e), OnFailure::Ignore)),
        None => None,
    }
}

/// What becomes of a vote extension once its signature was verified.
pub enum ExtensionCheck<P> {
    /// It is refused for its signature, without asking the application.
    InvalidSignature,
    /// The application verifies it.
    Ask(Step<P>),
}

/// What becomes of a vote extension whose signature was found valid or not.
pub fn verify_vote_extension<P>(signature_valid: bool, extension: P) -> (r: ExtensionCheck<P>)
    ensures
        r == if signature_valid {
            ExtensionCheck::Ask(failing(Action::HostVerifyVoteExtension(extension)))
        } else {
            ExtensionCheck::InvalidSignature
        },
{
    if signature_valid {
        ExtensionCheck::Ask(step(Action::HostVerifyVoteExtension(extension), OnFailure::Fail))
    } else {
        ExtensionCheck::InvalidSignature
    }
}

/// What the application makes of a value from sync.
pub enum SyncedValueOutcome<P, V> {
    /// The value, with its identifier.
    Verdict(P, V),
    /// The bytes are the fault of the peer that served them.
    PeerFault,
    /// Processing failed for a local reason.
    LocalTransientError,
}

/// What follows once the application has processed a value from sync. One
/// that is not the value of the certificate is the fault of the peer.
pub fn synced_value<P, V: Ident>(
    outcome: SyncedValueOutcome<P, V>,
    certified: &V,
    peer: PeerId,
    height: u64,
) -> (r: Step<P>)
    ensures
        r == ignoring(
            match outcome {
                SyncedValueOutcome::Verdict(p, id) => if id == *certified {
                    Action::CastSyncedValue(p)
                } else {
                    Action::NotifySyncPeerFault(peer, height)
                },
                SyncedValueOutcome::PeerFault => Action::NotifySyncPeerFault(peer, height),
                SyncedValueOutcome::LocalTransientError => Action::NotifySyncLocalTransientError(
                    height,
                ),
            },
        ),
{
    let action = match outcome {
        SyncedValueOutcome::Verdict(p, id) => {
            if id.same(certified) {
                Action::CastSyncedValue(p)
            } else {
                Action::NotifySyncPeerFault(peer, height)
            }
        },
        SyncedValueOutcome::PeerFault => Action::NotifySyncPeerFault(peer, height),
        SyncedValueOutcome::LocalTransientError => Action::NotifySyncLocalTransientError(height),
    };
    step(action, OnFailure::Ignore)
}

/// What follows once a validator proof was verified: the verdict, with the
/// public key where the proof is valid. A proof that could not be verified is
/// invalid.
pub fn validator_proof_verdict<P>(peer: PeerId, verified: Option<bool>, public_key: P) -> (r: Step<P>)
    ensures
        r == ignoring(
            if verified == Some(true) {
                Action::SendProofVerdict(peer, true, Some(public_key))
            } else {
                Action::SendProofVerdict(peer, false, None)
            },
        ),
{
    let action = match verified {
        Some(true) => Action::SendProofVerdict(peer, true, Some(public_key)),
        _ => Action::SendProofVerdict(peer, false, None),
    };
    step(action, OnFailure::Ignore)
}

} // verus!
