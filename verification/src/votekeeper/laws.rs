//! What holds of the vote keepers across calls.

use vstd::prelude::*;

use crate::types::{
    distinct_addresses, exceeds, lists, power_in, total_power, weight_of, Context, NilOrVal, Round,
    SignedVote, ThresholdParam, ThresholdParams, Validator, VoteType,
};
use crate::votekeeper::evidence::with_evidence;
use crate::votekeeper::fast::keeper as fast;
use crate::votekeeper::fast::params::FastThresholdParams;
use crate::votekeeper::keeper::{
    conflicts, has_slot, is_slot, lemma_tallies_bounded, one_vote_each, recorded, slot, tally,
    tally_type, tally_voters, voters_for, voters_of_type, KeeperView, Output,
};

verus! {

/// No output is emitted twice for a round, and one that was emitted is
/// remembered.
pub proof fn law_output_emitted_once<Ctx: Context>(
    k: KeeperView<Ctx>,
    vote: SignedVote<Ctx>,
    round: Round,
    params: ThresholdParams,
    vs: Seq<Validator<Ctx>>,
)
    ensures
        ({
            let (after, output) = k.apply(vote, round, params, vs);
            match output {
                Some(o) => !k.at(vote.round).emitted.contains(o) && after.at(vote.round).emitted
                    == k.at(vote.round).emitted.push(o),
                None => after.at(vote.round).emitted == k.at(vote.round).emitted,
            }
        }),
{
}

/// Applying a vote touches the round of the vote and no other.
pub proof fn law_other_rounds_untouched<Ctx: Context>(
    k: KeeperView<Ctx>,
    vote: SignedVote<Ctx>,
    round: Round,
    params: ThresholdParams,
    vs: Seq<Validator<Ctx>>,
    other: Round,
)
    requires
        other != vote.round,
    ensures
        k.apply(vote, round, params, vs).0.at(other) == k.at(other),
        k.apply(vote, round, params, vs).0.rounds.contains_key(other) == k.rounds.contains_key(other),
{
}

/// A conflicting vote changes no tally and gives no output; it becomes
/// evidence against its validator.
pub proof fn law_equivocation_not_tallied<Ctx: Context>(
    k: KeeperView<Ctx>,
    vote: SignedVote<Ctx>,
    round: Round,
    params: ThresholdParams,
    vs: Seq<Validator<Ctx>>,
)
    requires
        lists(vs, vote.validator_address),
        conflicts(k.at(vote.round).received, vote),
    ensures
        ({
            let (after, output) = k.apply(vote, round, params, vs);
            let votes = k.at(vote.round).received;
            let existing = votes[slot(votes, vote.vote_type, vote.validator_address)];
            &&& output is None
            &&& forall|r: Round| after.at(r) == k.at(r)
            &&& after.evidence == with_evidence(k.evidence, existing, vote)
            &&& after.evidence.contains_key(vote.validator_address)
        }),
{
}

/// A vote of an unknown validator changes nothing that is known and gives no
/// output.
pub proof fn law_unknown_validator_ignored<Ctx: Context>(
    k: KeeperView<Ctx>,
    vote: SignedVote<Ctx>,
    round: Round,
    params: ThresholdParams,
    vs: Seq<Validator<Ctx>>,
)
    requires
        !lists(vs, vote.validator_address),
    ensures
        ({
            let (after, output) = k.apply(vote, round, params, vs);
            &&& output is None
            &&& forall|r: Round| after.at(r) == k.at(r)
            &&& after.evidence == k.evidence
        }),
{
}

/// Applying a vote that was seen records nothing and makes no evidence.
pub proof fn law_seen_vote_records_nothing<Ctx: Context>(
    k: KeeperView<Ctx>,
    vote: SignedVote<Ctx>,
    round: Round,
    params: ThresholdParams,
    vs: Seq<Validator<Ctx>>,
)
    requires
        k.has_vote(vote),
    ensures
        ({
            let after = k.apply(vote, round, params, vs).0;
            &&& after.at(vote.round).received == k.at(vote.round).received
            &&& after.evidence == k.evidence
        }),
{
}

/// A vote that was applied without conflict is seen afterwards.
pub proof fn law_applied_vote_is_seen<Ctx: Context>(
    k: KeeperView<Ctx>,
    vote: SignedVote<Ctx>,
    round: Round,
    params: ThresholdParams,
    vs: Seq<Validator<Ctx>>,
)
    requires
        one_vote_each(k.at(vote.round).received),
        lists(vs, vote.validator_address),
        !conflicts(k.at(vote.round).received, vote),
    ensures
        k.apply(vote, round, params, vs).0.has_vote(vote),
{
    let t = vote.vote_type;
    let a = vote.validator_address;
    let votes = k.at(vote.round).received;
    let after = recorded(votes, vote);
    if has_slot(votes, t, a) {
        let i = slot(votes, t, a);
        assert(is_slot(after[i], t, a));
        let j = slot(after, t, a);
        assert(is_slot(after[j], t, a));
        assert(is_slot(votes[j], t, a));
        assert(i == j);
    } else {
        let i = votes.len() as int;
        assert(is_slot(after[i], t, a));
        let j = slot(after, t, a);
        assert(is_slot(after[j], t, a));
        if j < i {
            assert(is_slot(votes[j], t, a));
        }
    }
}

/// Pruning keeps exactly the rounds from `min_round` on, as they were, and all
/// evidence.
pub proof fn law_prune_keeps_later_rounds<Ctx: Context>(k: KeeperView<Ctx>, min_round: Round, r: Round)
    ensures
        k.pruned(min_round).rounds.contains_key(r) == (k.rounds.contains_key(r) && r.number()
            >= min_round.number()),
        r.number() >= min_round.number() ==> k.pruned(min_round).at(r) == k.at(r),
        k.pruned(min_round).evidence == k.evidence,
{
}

proof fn lemma_two_values<Ctx: Context>(
    votes: Seq<SignedVote<Ctx>>,
    t: VoteType,
    v: NilOrVal<Ctx::ValueId>,
    w: NilOrVal<Ctx::ValueId>,
    vs: Seq<Validator<Ctx>>,
)
    requires
        v != w,
    ensures
        tally(votes, t, v, vs) + tally(votes, t, w, vs) <= tally_type(votes, t, vs),
    decreases votes.len(),
{
    if votes.len() > 0 {
        let rest = votes.drop_last();
        let a = votes.last().validator_address;
        lemma_two_values(rest, t, v, w, vs);
        assert(voters_for(rest, t, v).push(a).drop_last() =~= voters_for(rest, t, v));
        assert(voters_for(rest, t, w).push(a).drop_last() =~= voters_for(rest, t, w));
        assert(voters_of_type(rest, t).push(a).drop_last() =~= voters_of_type(rest, t));
    }
}

/// Two weights that together are at most the total cannot both exceed a
/// fraction of at least one half.
proof fn lemma_no_two_majorities(p: ThresholdParam, a: nat, b: nat, total: nat)
    requires
        2 * p.numerator >= p.denominator,
        a + b <= total,
        exceeds(p, a, total),
    ensures
        !exceeds(p, b, total),
{
    let n = p.numerator as int;
    let d = p.denominator as int;
    assert(!(b * d > total * n)) by (nonlinear_arith)
        requires
            2 * n >= d,
            d >= 0,
            0 <= a,
            0 <= b,
            a + b <= total,
            a * d > total * n,
    ;
}

/// In one round at most one value, nil counted as one, has a quorum of votes
/// of a type, provided that a quorum is at least half of the voting power.
pub proof fn law_one_value_has_quorum<Ctx: Context>(
    votes: Seq<SignedVote<Ctx>>,
    t: VoteType,
    v: NilOrVal<Ctx::ValueId>,
    w: NilOrVal<Ctx::ValueId>,
    quorum: ThresholdParam,
    vs: Seq<Validator<Ctx>>,
)
    requires
        one_vote_each(votes),
        distinct_addresses(vs),
        2 * quorum.numerator >= quorum.denominator,
        exceeds(quorum, tally(votes, t, v, vs), total_power(vs)),
        exceeds(quorum, tally(votes, t, w, vs), total_power(vs)),
    ensures
        v == w,
{
    if v != w {
        lemma_two_values(votes, t, v, w, vs);
        lemma_tallies_bounded(votes, t, v, vs);
        lemma_no_two_majorities(
            quorum,
            tally(votes, t, v, vs),
            tally(votes, t, w, vs),
            total_power(vs),
        );
    }
}

/// Every output is backed by recorded votes of the needed weight.
pub proof fn law_outputs_are_backed<Ctx: Context>(
    k: KeeperView<Ctx>,
    vote: SignedVote<Ctx>,
    round: Round,
    params: ThresholdParams,
    vs: Seq<Validator<Ctx>>,
)
    ensures
        ({
            let (after, output) = k.apply(vote, round, params, vs);
            let votes = after.at(vote.round).received;
            let total = total_power(vs);
            match output {
                None => true,
                Some(Output::PolkaValue(v)) => exceeds(
                    params.quorum,
                    tally(votes, VoteType::Prevote, NilOrVal::Val(v), vs),
                    total,
                ),
                Some(Output::PolkaNil) => exceeds(
                    params.quorum,
                    tally(votes, VoteType::Prevote, NilOrVal::Nil, vs),
                    total,
                ),
                Some(Output::PolkaAny) => exceeds(
                    params.quorum,
                    tally_type(votes, VoteType::Prevote, vs),
                    total,
                ),
                Some(Output::PrecommitValue(v)) => exceeds(
                    params.quorum,
                    tally(votes, VoteType::Precommit, NilOrVal::Val(v), vs),
                    total,
                ),
                Some(Output::PrecommitAny) => exceeds(
                    params.quorum,
                    tally_type(votes, VoteType::Precommit, vs),
                    total,
                ) || exceeds(
                    params.quorum,
                    tally(votes, VoteType::Precommit, NilOrVal::Nil, vs),
                    total,
                ),
                Some(Output::SkipRound(r)) => r == vote.round && r.number() > round.number()
                    && exceeds(params.honest, tally_voters(votes, vs), total),
            }
        }),
{
}

/// A value with a quorum of precommits is reported when its last vote comes,
/// even where the round could be skipped to, unless it was reported before.
pub proof fn law_precommit_quorum_is_reported<Ctx: Context>(
    k: KeeperView<Ctx>,
    vote: SignedVote<Ctx>,
    v: Ctx::ValueId,
    round: Round,
    params: ThresholdParams,
    vs: Seq<Validator<Ctx>>,
)
    requires
        lists(vs, vote.validator_address),
        vote.vote_type == VoteType::Precommit,
        vote.value == NilOrVal::Val(v),
        !conflicts(k.at(vote.round).received, vote),
        exceeds(
            params.quorum,
            tally(recorded(k.at(vote.round).received, vote), VoteType::Precommit, vote.value, vs),
            total_power(vs),
        ),
        !k.at(vote.round).emitted.contains(Output::PrecommitValue(v)),
    ensures
        k.apply(vote, round, params, vs).1 == Some(Output::PrecommitValue(v)),
{
}

/// A quorum of prevotes is reported with a prevote, or was before: as one for the
/// value of that vote, where it has a quorum itself, and as one for anything
/// otherwise. Only the vote with which the keeper advises to skip to the round
/// is left out.
pub proof fn law_prevote_quorum_is_reported<Ctx: Context>(
    k: KeeperView<Ctx>,
    vote: SignedVote<Ctx>,
    round: Round,
    params: ThresholdParams,
    vs: Seq<Validator<Ctx>>,
)
    requires
        lists(vs, vote.validator_address),
        vote.vote_type == VoteType::Prevote,
        !conflicts(k.at(vote.round).received, vote),
        vote.round.number() <= round.number() || k.at(vote.round).emitted.contains(
            Output::SkipRound(vote.round),
        ) || !exceeds(
            params.honest,
            tally_voters(recorded(k.at(vote.round).received, vote), vs),
            total_power(vs),
        ),
        exceeds(
            params.quorum,
            tally_type(recorded(k.at(vote.round).received, vote), VoteType::Prevote, vs),
            total_power(vs),
        ),
    ensures
        ({
            let (after, output) = k.apply(vote, round, params, vs);
            let votes = after.at(vote.round).received;
            let polka = if !exceeds(
                params.quorum,
                tally(votes, VoteType::Prevote, vote.value, vs),
                total_power(vs),
            ) {
                Output::PolkaAny
            } else {
                match vote.value {
                    NilOrVal::Val(v) => Output::PolkaValue(v),
                    NilOrVal::Nil => Output::PolkaNil,
                }
            };
            &&& after.at(vote.round).emitted.contains(polka)
            &&& output == if k.at(vote.round).emitted.contains(polka) {
                None
            } else {
                Some(polka)
            }
        }),
{
    let known = k.at(vote.round).emitted;
    let (after, output) = k.apply(vote, round, params, vs);
    if let Some(o) = output {
        assert(after.at(vote.round).emitted[known.len() as int] == o);
    }
}

/// The fast keeper reports a decision whenever a new vote brings a value to
/// `n - f`, whether or not it reported `2f+1` before, unless it reported the
/// decision before.
pub proof fn law_fast_decision_not_suppressed<Ctx: Context>(
    k: fast::FastKeeperView<Ctx>,
    vote: SignedVote<Ctx>,
    v: Ctx::ValueId,
    params: FastThresholdParams,
    vs: Seq<Validator<Ctx>>,
)
    requires
        lists(vs, vote.validator_address),
        !fast::voted(k.at(vote.round).votes, vote.validator_address),
        vote.value == NilOrVal::Val(v),
        exceeds(
            params.decision,
            weight_of::<Ctx>(fast::backers(k.at(vote.round).votes.push(vote), vote.value), vs),
            total_power(vs),
        ),
        !k.at(vote.round).decision_quorum.contains(v),
    ensures
        k.apply(vote, params, vs).1.contains(fast::Output::DecisionQuorumValue(v)),
        k.apply(vote, params, vs).0.at(vote.round).decision_quorum.contains(v),
{
    let known = k.at(vote.round);
    let counted = fast::FastRoundView { votes: known.votes.push(vote), ..known };
    let c = counted.crossed(vote.value, params, vs);
    let out = fast::reports(vote.value, c);
    let i = if c.vote_quorum { 1int } else { 0int };
    assert(out[i] == fast::Output::DecisionQuorumValue(v));
    assert(counted.latched(vote.value, c).decision_quorum[known.decision_quorum.len() as int] == v);
}

/// The fast keeper reports `2f+1` for a value, a decision for a value, and
/// `n - f` for anything at most once per round each.
pub proof fn law_fast_reports_once<Ctx: Context>(
    k: fast::FastKeeperView<Ctx>,
    vote: SignedVote<Ctx>,
    params: FastThresholdParams,
    vs: Seq<Validator<Ctx>>,
)
    ensures
        ({
            let (after, out) = k.apply(vote, params, vs);
            let before = k.at(vote.round);
            &&& forall|v: Ctx::ValueId| #[trigger]
                out.contains(fast::Output::VoteQuorumValue(v)) ==> !before.vote_quorum.contains(v)
                    && after.at(vote.round).vote_quorum.contains(v)
            &&& forall|v: Ctx::ValueId| #[trigger]
                out.contains(fast::Output::DecisionQuorumValue(v)) ==> !before.decision_quorum.contains(v)
                    && after.at(vote.round).decision_quorum.contains(v)
            &&& out.contains(fast::Output::QuorumAny) ==> !before.quorum_any && after.at(
                vote.round,
            ).quorum_any
            &&& out.no_duplicates()
        }),
{
    let (after, out) = k.apply(vote, params, vs);
    let known = k.at(vote.round);
    let counted = fast::FastRoundView { votes: known.votes.push(vote), ..known };
    let c = counted.crossed(vote.value, params, vs);
    let latched = counted.latched(vote.value, c);
    if lists(vs, vote.validator_address) && !fast::voted(known.votes, vote.validator_address) {
        assert(out == fast::reports(vote.value, c));
        assert forall|v: Ctx::ValueId| #[trigger] out.contains(fast::Output::VoteQuorumValue(v)) implies !known.vote_quorum.contains(
            v,
        ) && after.at(vote.round).vote_quorum.contains(v) by {
            let i = choose|i: int| 0 <= i < out.len() && out[i] == fast::Output::VoteQuorumValue(v);
            assert(out[i] == fast::Output::VoteQuorumValue(v));
            assert(latched.vote_quorum[known.vote_quorum.len() as int] == v);
        }
        assert forall|v: Ctx::ValueId| #[trigger] out.contains(fast::Output::DecisionQuorumValue(v)) implies !known.decision_quorum.contains(
            v,
        ) && after.at(vote.round).decision_quorum.contains(v) by {
            let i = choose|i: int|
                0 <= i < out.len() && out[i] == fast::Output::DecisionQuorumValue(v);
            assert(out[i] == fast::Output::DecisionQuorumValue(v));
            assert(latched.decision_quorum[known.decision_quorum.len() as int] == v);
        }
        if out.contains(fast::Output::QuorumAny) {
            let i = choose|i: int| 0 <= i < out.len() && out[i] == fast::Output::<Ctx::ValueId>::QuorumAny;
            assert(out[i] == fast::Output::<Ctx::ValueId>::QuorumAny);
        }
    }
}

/// A conflicting second vote changes no tally of the fast keeper and gives no
/// report; it becomes evidence.
pub proof fn law_fast_equivocation_not_tallied<Ctx: Context>(
    k: fast::FastKeeperView<Ctx>,
    vote: SignedVote<Ctx>,
    params: FastThresholdParams,
    vs: Seq<Validator<Ctx>>,
)
    requires
        lists(vs, vote.validator_address),
        fast::voted(k.at(vote.round).votes, vote.validator_address),
    ensures
        ({
            let (after, out) = k.apply(vote, params, vs);
            let existing = k.at(vote.round).votes[fast::vote_index(
                k.at(vote.round).votes,
                vote.validator_address,
            )];
            &&& out.len() == 0
            &&& after.rounds == k.rounds
            &&& existing.value != vote.value ==> after.evidence == with_evidence(
                k.evidence,
                existing,
                vote,
            ) && after.evidence.contains_key(vote.validator_address)
            &&& existing.value == vote.value ==> after.evidence == k.evidence
        }),
{
}

/// A vote for nil is counted toward `n - f` for anything, and toward no value.
pub proof fn law_fast_nil_backs_no_value<Ctx: Context>(
    k: fast::FastKeeperView<Ctx>,
    vote: SignedVote<Ctx>,
    v: Ctx::ValueId,
    params: FastThresholdParams,
    vs: Seq<Validator<Ctx>>,
)
    requires
        lists(vs, vote.validator_address),
        !fast::voted(k.at(vote.round).votes, vote.validator_address),
        vote.value == NilOrVal::<Ctx::ValueId>::Nil,
    ensures
        ({
            let (after, out) = k.apply(vote, params, vs);
            let before = k.at(vote.round);
            let now = after.at(vote.round);
            &&& now.weight(NilOrVal::Val(v), vs) == before.weight(NilOrVal::Val(v), vs)
            &&& now.total(vs) == before.total(vs) + power_in(vs, vote.validator_address)
            &&& now.vote_quorum == before.vote_quorum
            &&& now.decision_quorum == before.decision_quorum
            &&& forall|i: int|
                0 <= i < out.len() ==> #[trigger] out[i] == fast::Output::<Ctx::ValueId>::QuorumAny
        }),
{
    let votes = k.at(vote.round).votes;
    let a = vote.validator_address;
    assert(votes.push(vote).drop_last() =~= votes);
    assert(fast::casters(votes).push(a).drop_last() =~= fast::casters(votes));
}

/// Where one vote makes a value valid and decides it, the fast keeper reports
/// that it is valid first.
pub proof fn law_fast_valid_before_decided<Ctx: Context>(
    k: fast::FastKeeperView<Ctx>,
    vote: SignedVote<Ctx>,
    params: FastThresholdParams,
    vs: Seq<Validator<Ctx>>,
    i: int,
    j: int,
)
    requires
        0 <= i < k.apply(vote, params, vs).1.len(),
        0 <= j < k.apply(vote, params, vs).1.len(),
        k.apply(vote, params, vs).1[i] is VoteQuorumValue,
        k.apply(vote, params, vs).1[j] is DecisionQuorumValue,
    ensures
        i < j,
{
}

/// Pruning the fast keeper keeps exactly the rounds from `min_round` on, as they
/// were, and all evidence.
pub proof fn law_fast_prune_keeps_later_rounds<Ctx: Context>(
    k: fast::FastKeeperView<Ctx>,
    min_round: Round,
    r: Round,
)
    ensures
        k.pruned(min_round).rounds.contains_key(r) == (k.rounds.contains_key(r) && r.number()
            >= min_round.number()),
        r.number() >= min_round.number() ==> k.pruned(min_round).at(r) == k.at(r),
        k.pruned(min_round).evidence == k.evidence,
{
}

} // verus!
