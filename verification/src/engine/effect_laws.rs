//! What the consensus actor does for each effect of the core, call by call.

use vstd::prelude::*;

use crate::engine::consensus::{
    after_failure, tells_subscribers, Action, CertificateKind, LivenessKind, OnFailure, Phase, Step,
};
use crate::engine::effect::{
    extend_vote, handle_effect, sum_of, synced_value, validator_proof_verdict,
    verify_vote_extension, wal_append, wal_flush, Effect, ExtensionCheck, SyncedValueOutcome,
};
use crate::engine::event::PeerId;
use crate::engine::failure::Outcome;
use crate::ident::Ident;
use crate::types::{Round, Timeout};

verus! {

/// Whether `action` only tells subscribers of something, or counts it.
pub open spec fn is_news<P>(action: Action<P>) -> bool {
    match action {
        Action::EmitStartedHeight(_, _) => true,
        Action::EmitStartedRound(_, _, _) => true,
        Action::EmitReceivedVote(_) => true,
        Action::EmitReceivedProposal(_) => true,
        Action::EmitReceivedProposedValue(_, _) => true,
        Action::EmitProposedValue(_) => true,
        Action::EmitPublished(_) => true,
        Action::EmitRepublishVote(_) => true,
        Action::EmitPolkaCertificate(_) => true,
        Action::EmitSkipRoundCertificate(_) => true,
        Action::EmitRebroadcastRoundCertificate(_) => true,
        Action::EmitDecided(_) => true,
        Action::EmitFinalized(_) => true,
        Action::EmitWalReplayBegin(_, _) => true,
        Action::EmitWalReplayEntry(_) => true,
        Action::EmitWalReplayDone => true,
        Action::EmitWalCorrupted => true,
        Action::IncConnectedPeers => true,
        Action::DecConnectedPeers => true,
        Action::CountEquivocationProposals(_) => true,
        Action::CountEquivocationVotes(_) => true,
        _ => false,
    }
}

/// Whether `action` writes the log.
pub open spec fn writes_log<P>(action: Action<P>) -> bool {
    action is WalAppend || action is WalFlush || action is WalReset
}

/// Whether the work among `steps`, but for news and the log, is the last step
/// alone, and that step does `action`, with `on_failure` where it fails.
pub open spec fn ends_with_work<P>(steps: Seq<Step<P>>, action: Action<P>, on_failure: OnFailure) -> bool {
    &&& steps.len() > 0
    &&& steps.last().action == action
    &&& steps.last().on_failure == on_failure
    &&& forall|i: int|
        0 <= i < steps.len() - 1 ==> is_news((#[trigger] steps[i]).action) || writes_log(
            steps[i].action,
        )
}

/// Whether one of `steps`, before the `n`-th, does `action`.
pub open spec fn told_before<P>(steps: Seq<Step<P>>, n: int, action: Action<P>) -> bool {
    exists|i: int| 0 <= i < n && n <= steps.len() && (#[trigger] steps[i]).action == action
}

/// Whether one of `steps` does `action`.
pub open spec fn does<P>(steps: Seq<Step<P>>, action: Action<P>) -> bool {
    exists|i: int| 0 <= i < steps.len() && (#[trigger] steps[i]).action == action
}

/// Whether no news is among `steps` but `action`, and that once.
pub open spec fn only_news<P>(steps: Seq<Step<P>>, action: Action<P>) -> bool {
    exists|i: int|
        0 <= i < steps.len() && (#[trigger] steps[i]).action == action && forall|j: int|
            0 <= j < steps.len() && j != i ==> !is_news((#[trigger] steps[j]).action)
}

/// Whether no news is among `steps`.
pub open spec fn no_news<P>(steps: Seq<Step<P>>) -> bool {
    forall|j: int| 0 <= j < steps.len() ==> !is_news((#[trigger] steps[j]).action)
}

/// A decision ends in the application being told of the decided value at its
/// height, whoever this node is and whatever it is in the middle of; a failure of
/// that is returned. Before, subscribers are told of the value, and of nothing
/// else.
pub proof fn law_decision_reaches_the_application<P: Ident>(
    phase: Phase,
    is_validator: bool,
    height: u64,
    signatures: usize,
    value: P,
    r: Vec<Step<P>>,
)
    requires
        call_ensures(
            handle_effect::<P>,
            (phase, is_validator, Effect::Decide(height, signatures, value)),
            r,
        ),
    ensures
        ends_with_work(r@, Action::HostDecided(height, value), OnFailure::Fail),
        only_news(r@, Action::EmitDecided(value)),
{
    let n = r@.len() as int;
    assert(n == 2 || (n == 3 && r@[0].action == Action::<P>::WalFlush));
    assert(r@[n - 2].action == Action::EmitDecided(value));
    assert forall|j: int| 0 <= j < n && j != n - 2 implies !is_news((#[trigger] r@[j]).action) by {
        assert(j == n - 1 || j == 0);
    }
}

/// A final height ends in the application being told of it; a failure of that is
/// returned. Before, subscribers are told of it, and the equivocations are counted
/// where there are any: as many as were seen, of proposals and of votes.
pub proof fn law_final_height_reaches_the_application<P: Ident>(
    phase: Phase,
    is_validator: bool,
    signatures: usize,
    value: P,
    proposals: Vec<usize>,
    votes: Vec<usize>,
    r: Vec<Step<P>>,
    n: usize,
)
    requires
        call_ensures(
            handle_effect::<P>,
            (phase, is_validator, Effect::Finalize(signatures, value, proposals, votes)),
            r,
        ),
        sum_of(proposals@) <= usize::MAX,
        sum_of(votes@) <= usize::MAX,
    ensures
        ends_with_work(r@, Action::HostFinalized(value), OnFailure::Fail),
        told_before(r@, r@.len() - 1, Action::EmitFinalized(value)),
        does(r@, Action::CountEquivocationProposals(n)) == (n > 0 && n == sum_of(proposals@)),
        does(r@, Action::CountEquivocationVotes(n)) == (n > 0 && n == sum_of(votes@)),
        r@.len() == 2 + (if sum_of(proposals@) > 0 {
            1int
        } else {
            0
        }) + (if sum_of(votes@) > 0 {
            1int
        } else {
            0
        }),
{
    let p = sum_of(proposals@);
    let v = sum_of(votes@);
    let m = r@.len() as int;
    assert(r@[m - 2].action == Action::EmitFinalized(value));
    if p > 0 {
        assert(r@[0].action == Action::<P>::CountEquivocationProposals(p as usize));
    }
    if v > 0 {
        assert(r@[m - 3].action == Action::<P>::CountEquivocationVotes(v as usize));
    }
}

/// The equivocations that are counted are the sum over the equivocators.
pub proof fn law_equivocations_add_up(counts: Seq<usize>, more: usize)
    ensures
        sum_of(Seq::empty()) == 0,
        sum_of(counts.push(more)) == sum_of(counts) + more,
{
    assert(counts.push(more).drop_last() =~= counts);
}

/// A new round is told to the application first; a failure of that is returned.
/// The values that it returns are handed to this actor, and then subscribers are
/// told of the round.
pub proof fn law_new_round_reaches_the_application<P: Ident>(
    phase: Phase,
    is_validator: bool,
    height: u64,
    round: Round,
    p: P,
    r: Vec<Step<P>>,
)
    requires
        call_ensures(
            handle_effect::<P>,
            (phase, is_validator, Effect::StartRound(height, round, p)),
            r,
        ),
    ensures
        ({
            let n = r@.len() as int;
            &&& n >= 3
            &&& r@[n - 3] == (Step {
                action: Action::HostStartedRound(height, round, p),
                on_failure: OnFailure::Fail,
            })
            &&& r@[n - 2].action == Action::<P>::CastUndecidedValues
            &&& r@[n - 1].action == Action::EmitStartedRound(height, round, p)
            &&& forall|i: int| 0 <= i < n - 3 ==> writes_log((#[trigger] r@[i]).action)
        }),
{
}

/// A consensus message is published, and a failure of that is returned.
/// Subscribers are told of that message first.
pub proof fn law_message_is_published<P: Ident>(phase: Phase, is_validator: bool, p: P, r: Vec<Step<P>>)
    requires
        call_ensures(handle_effect::<P>, (phase, is_validator, Effect::PublishConsensusMsg(p)), r),
    ensures
        ends_with_work(r@, Action::PublishConsensusMsg(p), OnFailure::Fail),
        only_news(r@, Action::EmitPublished(p)),
{
    let n = r@.len() as int;
    assert(n == 2 || (n == 3 && r@[0].action == Action::<P>::WalFlush));
    assert(r@[n - 2].action == Action::EmitPublished(p));
    assert forall|j: int| 0 <= j < n && j != n - 2 implies !is_news((#[trigger] r@[j]).action) by {
        assert(j == n - 1 || j == 0);
    }
}

/// A message that keeps consensus alive is published as what it is, whether it is
/// sent for the first time or again, without touching the log, and a failure of
/// that is returned. Subscribers are told of it first.
pub proof fn law_liveness_message_is_published<P: Ident>(
    phase: Phase,
    is_validator: bool,
    effect: Effect<P>,
    kind: LivenessKind,
    p: P,
    r: Vec<Step<P>>,
)
    requires
        call_ensures(handle_effect::<P>, (phase, is_validator, effect), r),
        effect == Effect::PublishLivenessMsg(kind, p) || (effect == Effect::RepublishVote(p) && kind
            == LivenessKind::Vote) || (effect == Effect::RepublishRoundCertificate(p) && kind
            == LivenessKind::SkipRoundCertificate),
    ensures
        r@.len() == 2,
        ends_with_work(r@, Action::PublishLivenessMsg(kind, p), OnFailure::Fail),
        only_news(
            r@,
            match kind {
                LivenessKind::Vote => Action::EmitRepublishVote(p),
                LivenessKind::PolkaCertificate => Action::EmitPolkaCertificate(p),
                LivenessKind::SkipRoundCertificate => if effect is RepublishRoundCertificate {
                    Action::EmitRebroadcastRoundCertificate(p)
                } else {
                    Action::EmitSkipRoundCertificate(p)
                },
            },
        ),
{
    assert(is_news(r@[0].action));
}

/// Whether `steps` is the one step that does `action`.
pub open spec fn is_step<P>(steps: Seq<Step<P>>, action: Action<P>, on_failure: OnFailure) -> bool {
    steps.len() == 1 && steps[0].action == action && steps[0].on_failure == on_failure
}

/// Timers are started and cancelled as the core asks, and nothing else is done.
pub proof fn law_timers_follow_the_core<P: Ident>(
    phase: Phase,
    is_validator: bool,
    timeout: Timeout,
    start: Vec<Step<P>>,
    cancel: Vec<Step<P>>,
    cancel_all: Vec<Step<P>>,
)
    requires
        call_ensures(
            handle_effect::<P>,
            (phase, is_validator, Effect::ScheduleTimeout(timeout)),
            start,
        ),
        call_ensures(
            handle_effect::<P>,
            (phase, is_validator, Effect::CancelTimeout(timeout)),
            cancel,
        ),
        call_ensures(
            handle_effect::<P>,
            (phase, is_validator, Effect::CancelAllTimeouts),
            cancel_all,
        ),
    ensures
        is_step(start@, Action::StartTimer(timeout), OnFailure::Ignore),
        is_step(cancel@, Action::CancelTimer(timeout), OnFailure::Ignore),
        is_step(cancel_all@, Action::CancelAllTimers, OnFailure::Ignore),
{
}

/// What the core wants signed is signed, and what it wants verified is verified,
/// each as what it is. Where a signature cannot be made or checked, the error is
/// returned; a certificate that cannot be checked is the core's to judge.
pub proof fn law_signatures_follow_the_core<P: Ident>(
    phase: Phase,
    is_validator: bool,
    effect: Effect<P>,
    r: Vec<Step<P>>,
    p: P,
)
    requires
        call_ensures(handle_effect::<P>, (phase, is_validator, effect), r),
    ensures
        effect == Effect::SignProposal(p) ==> is_step(r@, Action::SignProposal(p), OnFailure::Fail),
        effect == Effect::SignVote(p) ==> is_step(r@, Action::SignVote(p), OnFailure::Fail),
        effect == Effect::VerifyVoteSignature(p) ==> is_step(
            r@,
            Action::VerifyVote(p),
            OnFailure::Fail,
        ),
        effect == Effect::VerifyProposalSignature(p) ==> is_step(
            r@,
            Action::VerifyProposal(p),
            OnFailure::Fail,
        ),
        effect == Effect::VerifyVoteExtension(p) ==> is_step(
            r@,
            Action::VerifyVoteExtensionSignature(p),
            OnFailure::Fail,
        ),
        effect == Effect::VerifyCommitCertificate(p) ==> is_step(
            r@,
            Action::VerifyCertificate(CertificateKind::Commit, p),
            OnFailure::Ignore,
        ),
        effect == Effect::VerifyPolkaCertificate(p) ==> is_step(
            r@,
            Action::VerifyCertificate(CertificateKind::Polka, p),
            OnFailure::Ignore,
        ),
        effect == Effect::VerifyExtendedCommitCertificate(p) ==> is_step(
            r@,
            Action::VerifyCertificate(CertificateKind::ExtendedCommit, p),
            OnFailure::Ignore,
        ),
        effect == Effect::VerifyRoundCertificate(p) ==> is_step(
            r@,
            Action::VerifyCertificate(CertificateKind::Round, p),
            OnFailure::Ignore,
        ),
{
}

/// The application is asked for what only it can give: a value to propose, a
/// proposed value to send again, the extension of a vote, and its view of a value
/// from sync whose certificate is valid. Where it cannot be asked, the error is
/// returned.
pub proof fn law_application_is_asked<P: Ident>(
    phase: Phase,
    is_validator: bool,
    effect: Effect<P>,
    r: Vec<Step<P>>,
    height: u64,
    round: Round,
    timeout: Timeout,
    p: P,
)
    requires
        call_ensures(handle_effect::<P>, (phase, is_validator, effect), r),
    ensures
        effect == Effect::<P>::GetValue(height, round, timeout) ==> is_step(
            r@,
            Action::HostGetValue(height, round, timeout),
            OnFailure::Fail,
        ),
        effect == Effect::RestreamProposal(p) ==> is_step(
            r@,
            Action::HostRestreamValue(p),
            OnFailure::Fail,
        ),
        effect == Effect::ExtendVote(p) ==> is_step(r@, Action::HostExtendVote(p), OnFailure::Fail),
        effect == Effect::CertVerifiedSyncValue(p) ==> is_step(
            r@,
            Action::HostProcessSyncedValue(p),
            OnFailure::Fail,
        ),
{
}

/// A value from sync that was rejected is reported to sync: as the fault of its
/// peer, at the height of the certificate, where the certificate is invalid, and
/// as a local failure at the height of the value otherwise.
pub proof fn law_rejected_value_is_reported_to_sync<P: Ident>(
    phase: Phase,
    is_validator: bool,
    peer: PeerId,
    height: u64,
    certificate: Option<u64>,
    r: Vec<Step<P>>,
)
    requires
        call_ensures(
            handle_effect::<P>,
            (phase, is_validator, Effect::CertRejectedSyncValue(peer, height, certificate)),
            r,
        ),
    ensures
        certificate matches Some(h) ==> is_step(
            r@,
            Action::NotifySyncPeerFault(peer, h),
            OnFailure::Ignore,
        ),
        certificate is None ==> is_step(
            r@,
            Action::NotifySyncLocalTransientError(height),
            OnFailure::Ignore,
        ),
{
}

/// The log is written by a validator, and not while it is replayed. Then an entry
/// is appended as asked, at its height, and anything that was signed leaves, and
/// a decision or a new round is acted on, after one flush of the log. A failure
/// of either hangs the actor. Otherwise no effect writes the log.
pub proof fn law_log_is_written_by_validators<P: Ident>(
    phase: Phase,
    is_validator: bool,
    effect: Effect<P>,
    r: Vec<Step<P>>,
)
    requires
        call_ensures(handle_effect::<P>, (phase, is_validator, effect), r),
    ensures
        is_validator && phase != Phase::Recovering ==> match effect {
            Effect::WalAppend(height, p) => is_step(r@, Action::WalAppend(height, p), OnFailure::Hang),
            Effect::PublishConsensusMsg(_) | Effect::Decide(_, _, _) | Effect::StartRound(_, _, _) => {
                &&& r@.len() > 1
                &&& r@[0].action == Action::<P>::WalFlush
                &&& r@[0].on_failure == OnFailure::Hang
                &&& forall|i: int| 1 <= i < r@.len() ==> !writes_log((#[trigger] r@[i]).action)
            },
            _ => forall|i: int| 0 <= i < r@.len() ==> !writes_log((#[trigger] r@[i]).action),
        },
        !is_validator || phase == Phase::Recovering ==> forall|i: int|
            0 <= i < r@.len() ==> !writes_log((#[trigger] r@[i]).action),
        (!is_validator || phase == Phase::Recovering) && effect is WalAppend ==> r@.len() == 0,
{
}

/// The steps that write the log are there exactly for a validator, outside of a
/// replay.
pub proof fn law_log_steps<P>(
    height: u64,
    entry: P,
    phase: Phase,
    is_validator: bool,
    append: Option<Step<P>>,
    flush: Option<Step<P>>,
)
    requires
        call_ensures(wal_append::<P>, (height, entry, phase, is_validator), append),
        call_ensures(wal_flush::<P>, (phase, is_validator), flush),
    ensures
        append is Some == (is_validator && phase != Phase::Recovering),
        flush is Some == (is_validator && phase != Phase::Recovering),
        append matches Some(s) ==> s.action == Action::WalAppend(height, entry) && s.on_failure
            == OnFailure::Hang,
        flush matches Some(s) ==> s.action == Action::<P>::WalFlush && s.on_failure == OnFailure::Hang,
{
}

/// The effects of the core never let the core process anything: only messages do.
pub proof fn law_effects_do_not_feed_the_core<P: Ident>(
    phase: Phase,
    is_validator: bool,
    effect: Effect<P>,
    r: Vec<Step<P>>,
    i: int,
)
    requires
        call_ensures(handle_effect::<P>, (phase, is_validator, effect), r),
        0 <= i < r@.len(),
    ensures
        !(r@[i].action is Process),
        is_news(r@[i].action) ==> r@[i].on_failure == OnFailure::Ignore,
{
}

/// An extension that the application gives is signed, and without one nothing is.
/// A failure to sign it is of no consequence.
pub proof fn law_given_extension_is_signed<P>(extension: Option<P>, r: Option<Step<P>>)
    requires
        call_ensures(extend_vote::<P>, (extension,), r),
    ensures
        r is Some == extension is Some,
        extension matches Some(e) ==> (r matches Some(s) && s.action == Action::SignVoteExtension(e)
            && s.on_failure == OnFailure::Ignore),
{
}

/// The application judges a vote extension exactly where its signature is valid.
pub proof fn law_signed_extension_is_judged<P>(valid: bool, extension: P, r: ExtensionCheck<P>)
    requires
        call_ensures(verify_vote_extension::<P>, (valid, extension), r),
    ensures
        r is Ask == valid,
        r matches ExtensionCheck::Ask(s) ==> s.action == Action::HostVerifyVoteExtension(extension)
            && s.on_failure == OnFailure::Fail,
{
}

/// A value from sync goes on exactly where it is the one that the certificate is
/// for. Another one, like bytes that are no value, is the fault of the peer; what
/// failed here is reported as that.
pub proof fn law_synced_value_is_the_certified_one<P, V: Ident>(
    outcome: SyncedValueOutcome<P, V>,
    certified: V,
    peer: PeerId,
    height: u64,
    r: Step<P>,
)
    requires
        call_ensures(synced_value::<P, V>, (outcome, &certified, peer, height), r),
    ensures
        r.action is CastSyncedValue <==> (outcome matches SyncedValueOutcome::Verdict(_, id) && id
            == certified),
        r.action matches Action::CastSyncedValue(p) ==> (outcome matches SyncedValueOutcome::Verdict(
            q,
            _,
        ) && p == q),
        r.action == Action::<P>::NotifySyncLocalTransientError(height) <==> outcome
            is LocalTransientError,
        !(outcome is LocalTransientError) && !(r.action is CastSyncedValue) ==> r.action
            == Action::<P>::NotifySyncPeerFault(peer, height),
        r.on_failure == OnFailure::Ignore,
{
}

/// A validator proof is accepted exactly where it was verified and found valid,
/// and then with the public key; the verdict is for the peer that sent it.
pub proof fn law_proof_verdict_follows_the_check<P>(
    peer: PeerId,
    verified: Option<bool>,
    public_key: P,
    r: Step<P>,
)
    requires
        call_ensures(validator_proof_verdict::<P>, (peer, verified, public_key), r),
    ensures
        r.action matches Action::SendProofVerdict(to, valid, key) && to == peer && valid == (verified
            == Some(true)) && key == if valid {
            Some(public_key)
        } else {
            None
        },
        r.on_failure == OnFailure::Ignore,
{
}

/// A failed step is passed over, fails the actor or hangs it, and a step whose
/// failure could lead to a conflicting signature never does either of the first
/// two.
pub proof fn law_failure_is_settled(
    on_failure: OnFailure,
    reason: String,
    r: Option<Outcome<()>>,
    replied: bool,
    tells: bool,
)
    requires
        call_ensures(after_failure, (on_failure, reason), r),
        call_ensures(tells_subscribers, (on_failure, replied), tells),
    ensures
        r is None <==> on_failure == OnFailure::Ignore,
        r matches Some(o) ==> !(o is Continue),
        r matches Some(Outcome::HangWith(_)) <==> (on_failure == OnFailure::Hang || on_failure
            == OnFailure::TellAndHang),
        r matches Some(Outcome::HangWith(m)) ==> m == reason,
        r matches Some(Outcome::Fail(m)) ==> m@ == (if on_failure == OnFailure::Fail {
            Seq::empty()
        } else {
            "liveness failure: "@
        }) + reason@,
        tells <==> on_failure == OnFailure::TellAndHang || (on_failure == OnFailure::TellAndStop
            && replied),
{
    assert(Seq::<char>::empty() + reason@ =~= reason@);
}

} // verus!
