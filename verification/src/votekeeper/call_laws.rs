//! What each call of the vote keepers does to what is known, and what it reports.

use vstd::prelude::*;

use crate::types::{
    exceeds, lists, power_in, total_power, weight_of, Context, NilOrVal, Round, SignedVote,
    ThresholdParam, ThresholdParams, Validator, VoteType, Weight,
};
use crate::votekeeper::evidence::{with_evidence, EvidenceMap, MAX_EVIDENCE_PER_VALIDATOR};
use crate::votekeeper::fast::keeper::{
    backers, casters, lemma_fast_reports, voted, FastVoteKeeper, Output as FastOutput,
};
use crate::votekeeper::keeper::{
    has_slot, is_slot, lemma_push_contains, one_vote_each, precommits_for, slot, tally, tally_type,
    tally_voters, upgrades, voters, voters_for, voters_of_type, Output, PerRound, VoteKeeper,
};
use crate::votekeeper::tally::Threshold;

verus! {

/// What is known of the round of a vote before it is applied.
pub open spec fn votes_before<Ctx: Context>(keeper: VoteKeeper<Ctx>, round: Round) -> Seq<SignedVote<Ctx>> {
    keeper@.at(round).received
}

/// Whether the validator of `vote` cast another vote of its type among `votes`,
/// for something else.
pub open spec fn contradicted<Ctx: Context>(votes: Seq<SignedVote<Ctx>>, vote: SignedVote<Ctx>) -> bool {
    exists|i: int|
        0 <= i < votes.len() && (#[trigger] votes[i]).vote_type == vote.vote_type
            && votes[i].validator_address == vote.validator_address && votes[i].value != vote.value
}

/// Whether the validator of `vote` cast no vote of its type among `votes`.
pub open spec fn is_first<Ctx: Context>(votes: Seq<SignedVote<Ctx>>, vote: SignedVote<Ctx>) -> bool {
    forall|i: int|
        0 <= i < votes.len() ==> !((#[trigger] votes[i]).vote_type == vote.vote_type
            && votes[i].validator_address == vote.validator_address)
}

/// Whether the weight that `keeper` has for votes of type `t` at `round`, for the
/// value `v` if one is given, is a quorum.
pub open spec fn quorum_at<Ctx: Context>(
    keeper: VoteKeeper<Ctx>,
    round: Round,
    t: VoteType,
    v: Option<NilOrVal<Ctx::ValueId>>,
) -> bool {
    let vs = keeper.validator_set.validators@;
    let votes = keeper@.at(round).received;
    exceeds(
        keeper.threshold_params.quorum,
        match v {
            Some(x) => tally(votes, t, x, vs),
            None => tally_type(votes, t, vs),
        },
        total_power(vs),
    )
}

/// Whether voters with at least one honest vote among them are at `round`, which
/// is later than the `current` one.
pub open spec fn is_ahead<Ctx: Context>(keeper: VoteKeeper<Ctx>, round: Round, current: Round) -> bool {
    let vs = keeper.validator_set.validators@;
    round.number() > current.number() && exceeds(
        keeper.threshold_params.honest,
        tally_voters(keeper@.at(round).received, vs),
        total_power(vs),
    )
}

proof fn lemma_contradicted<Ctx: Context>(votes: Seq<SignedVote<Ctx>>, vote: SignedVote<Ctx>)
    requires
        one_vote_each(votes),
    ensures
        is_first(votes, vote) == !has_slot(votes, vote.vote_type, vote.validator_address),
        contradicted(votes, vote) == (has_slot(votes, vote.vote_type, vote.validator_address) && votes[slot(
            votes,
            vote.vote_type,
            vote.validator_address,
        )].value != vote.value),
{
    let t = vote.vote_type;
    let a = vote.validator_address;
    if has_slot(votes, t, a) {
        let k = slot(votes, t, a);
        assert(is_slot(votes[k], t, a));
        if contradicted(votes, vote) {
            let i = choose|i: int|
                0 <= i < votes.len() && (#[trigger] votes[i]).vote_type == t
                    && votes[i].validator_address == a && votes[i].value != vote.value;
            assert(is_slot(votes[i], t, a));
        }
    } else {
        assert forall|i: int| 0 <= i < votes.len() implies !((#[trigger] votes[i]).vote_type == t
            && votes[i].validator_address == a) by {
            assert(!is_slot(votes[i], t, a));
        }
    }
}

proof fn lemma_known<Ctx: Context>(keeper: VoteKeeper<Ctx>, round: Round)
    requires
        keeper.wf(),
    ensures
        one_vote_each(keeper@.at(round).received),
{
    if keeper@.rounds.contains_key(round) {
        assert(keeper.per_round@.contains_key(round));
        assert(keeper.per_round@[round].tallies(round, keeper.validator_set.validators@));
    }
}

/// The first vote of its type of a validator is recorded as it is, behind those
/// that are recorded.
pub proof fn law_first_vote_is_recorded<Ctx: Context>(
    keeper: &mut VoteKeeper<Ctx>,
    vote: SignedVote<Ctx>,
    round: Round,
    r: Option<Output<Ctx::ValueId>>,
)
    requires
        call_ensures(VoteKeeper::<Ctx>::apply_vote, (keeper, vote, round), r),
        old(keeper).wf(),
        lists(old(keeper).validator_set.validators@, vote.validator_address),
        is_first(votes_before(*old(keeper), vote.round), vote),
    ensures
        final(keeper)@.at(vote.round).received == votes_before(*old(keeper), vote.round).push(vote),
        final(keeper)@.evidence == old(keeper)@.evidence,
{
    lemma_known(*old(keeper), vote.round);
    lemma_contradicted(votes_before(*old(keeper), vote.round), vote);
}

/// A further vote of a validator for the same thing takes the place of the first
/// where it brings an extension that the first lacks, and changes nothing that is
/// recorded otherwise.
pub proof fn law_repeated_vote_brings_its_extension<Ctx: Context>(
    keeper: &mut VoteKeeper<Ctx>,
    vote: SignedVote<Ctx>,
    round: Round,
    r: Option<Output<Ctx::ValueId>>,
    i: int,
)
    requires
        call_ensures(VoteKeeper::<Ctx>::apply_vote, (keeper, vote, round), r),
        old(keeper).wf(),
        lists(old(keeper).validator_set.validators@, vote.validator_address),
        0 <= i < votes_before(*old(keeper), vote.round).len(),
        votes_before(*old(keeper), vote.round)[i].vote_type == vote.vote_type,
        votes_before(*old(keeper), vote.round)[i].validator_address == vote.validator_address,
        votes_before(*old(keeper), vote.round)[i].value == vote.value,
    ensures
        ({
            let before = votes_before(*old(keeper), vote.round);
            final(keeper)@.at(vote.round).received == if before[i].extension is None
                && vote.extension is Some {
                before.update(i, vote)
            } else {
                before
            }
        }),
        final(keeper)@.evidence == old(keeper)@.evidence,
{
    let before = votes_before(*old(keeper), vote.round);
    lemma_known(*old(keeper), vote.round);
    assert(is_slot(before[i], vote.vote_type, vote.validator_address));
    let k = slot(before, vote.vote_type, vote.validator_address);
    assert(is_slot(before[k], vote.vote_type, vote.validator_address));
    assert(k == i);
}

proof fn lemma_power_at<Ctx: Context>(vs: Seq<Validator<Ctx>>, i: int)
    requires
        crate::types::distinct_addresses(vs),
        0 <= i < vs.len(),
    ensures
        lists(vs, vs[i].address),
        power_in(vs, vs[i].address) == vs[i].voting_power,
{
    let k = choose|k: int| 0 <= k < vs.len() && (#[trigger] vs[k]).address == vs[i].address;
    assert(vs[k].address == vs[i].address);
}

proof fn lemma_voters_contains<Ctx: Context>(votes: Seq<SignedVote<Ctx>>, a: Ctx::Address)
    ensures
        voters(votes).contains(a) == exists|i: int|
            0 <= i < votes.len() && (#[trigger] votes[i]).validator_address == a,
    decreases votes.len(),
{
    if votes.len() > 0 {
        let rest = votes.drop_last();
        lemma_voters_contains(rest, a);
        lemma_push_contains(voters(rest), votes.last().validator_address, a);
        if exists|i: int| 0 <= i < votes.len() && (#[trigger] votes[i]).validator_address == a {
            let i = choose|i: int| 0 <= i < votes.len() && (#[trigger] votes[i]).validator_address == a;
            if i < rest.len() {
                assert(rest[i].validator_address == a);
            }
        }
        if exists|i: int| 0 <= i < rest.len() && (#[trigger] rest[i]).validator_address == a {
            let i = choose|i: int| 0 <= i < rest.len() && (#[trigger] rest[i]).validator_address == a;
            assert(votes[i].validator_address == a);
        }
        assert(votes[votes.len() - 1] == votes.last());
    }
}

/// The first vote of its type of a validator adds the voting power of the
/// validator to the weight of what it is for and to that of its type, and to the
/// weight of the voters where the validator cast no vote of either type before.
/// No other weight of the round changes.
pub proof fn law_first_vote_counts_its_power<Ctx: Context>(
    keeper: &mut VoteKeeper<Ctx>,
    vote: SignedVote<Ctx>,
    round: Round,
    r: Option<Output<Ctx::ValueId>>,
    i: int,
    t: VoteType,
    v: NilOrVal<Ctx::ValueId>,
)
    requires
        call_ensures(VoteKeeper::<Ctx>::apply_vote, (keeper, vote, round), r),
        old(keeper).wf(),
        0 <= i < old(keeper).validator_set.validators@.len(),
        old(keeper).validator_set.validators@[i].address == vote.validator_address,
        is_first(votes_before(*old(keeper), vote.round), vote),
    ensures
        ({
            let vs = old(keeper).validator_set.validators@;
            let power = vs[i].voting_power as nat;
            let before = votes_before(*old(keeper), vote.round);
            let after = final(keeper)@.at(vote.round).received;
            &&& tally(after, t, v, vs) == tally(before, t, v, vs) + if t == vote.vote_type && v
                == vote.value {
                power
            } else {
                0
            }
            &&& tally_type(after, t, vs) == tally_type(before, t, vs) + if t == vote.vote_type {
                power
            } else {
                0
            }
            &&& tally_voters(after, vs) == tally_voters(before, vs) + if exists|k: int|
                0 <= k < before.len() && (#[trigger] before[k]).validator_address
                    == vote.validator_address {
                0
            } else {
                power
            }
        }),
{
    let vs = old(keeper).validator_set.validators@;
    let before = votes_before(*old(keeper), vote.round);
    let a = vote.validator_address;
    lemma_known(*old(keeper), vote.round);
    lemma_contradicted(before, vote);
    lemma_power_at(vs, i);
    lemma_voters_contains(before, a);
    assert(before.push(vote).drop_last() =~= before);
    assert(voters_for(before, t, v).push(a).drop_last() =~= voters_for(before, t, v));
    assert(voters_of_type(before, t).push(a).drop_last() =~= voters_of_type(before, t));
    assert(voters(before).push(a).drop_last() =~= voters(before));
}

/// Without votes there is no weight.
pub proof fn law_no_votes_no_weight<Ctx: Context>(
    t: VoteType,
    v: NilOrVal<Ctx::ValueId>,
    vs: Seq<Validator<Ctx>>,
)
    ensures
        tally::<Ctx>(Seq::empty(), t, v, vs) == 0,
        tally_type::<Ctx>(Seq::empty(), t, vs) == 0,
        tally_voters::<Ctx>(Seq::empty(), vs) == 0,
{
}

/// A vote that contradicts an earlier one of its validator reports nothing and is
/// recorded nowhere but in the evidence. There the two votes are a pair, unless
/// the validator has as many pairs as are kept. The evidence against others stays.
pub proof fn law_contradiction_is_evidence<Ctx: Context>(
    keeper: &mut VoteKeeper<Ctx>,
    vote: SignedVote<Ctx>,
    round: Round,
    r: Option<Output<Ctx::ValueId>>,
    i: int,
    other: Ctx::Address,
)
    requires
        call_ensures(VoteKeeper::<Ctx>::apply_vote, (keeper, vote, round), r),
        old(keeper).wf(),
        lists(old(keeper).validator_set.validators@, vote.validator_address),
        0 <= i < votes_before(*old(keeper), vote.round).len(),
        votes_before(*old(keeper), vote.round)[i].vote_type == vote.vote_type,
        votes_before(*old(keeper), vote.round)[i].validator_address == vote.validator_address,
        votes_before(*old(keeper), vote.round)[i].value != vote.value,
        other != vote.validator_address,
    ensures
        r is None,
        forall|q: Round| final(keeper)@.at(q) == old(keeper)@.at(q),
        ({
            let a = vote.validator_address;
            let first = votes_before(*old(keeper), vote.round)[i];
            let pairs = final(keeper)@.evidence[a];
            &&& final(keeper)@.evidence.contains_key(a)
            &&& pairs.contains((first, vote)) || pairs.contains((vote, first)) || pairs.len()
                == MAX_EVIDENCE_PER_VALIDATOR
            &&& old(keeper)@.evidence.contains_key(a) ==> old(keeper)@.evidence[a].is_prefix_of(pairs)
            &&& pairs.len() <= (if old(keeper)@.evidence.contains_key(a) {
                old(keeper)@.evidence[a].len()
            } else {
                0
            }) + 1
        }),
        final(keeper)@.evidence.contains_key(other) == old(keeper)@.evidence.contains_key(other),
        old(keeper)@.evidence.contains_key(other) ==> final(keeper)@.evidence[other]
            == old(keeper)@.evidence[other],
{
    let before = votes_before(*old(keeper), vote.round);
    let a = vote.validator_address;
    lemma_known(*old(keeper), vote.round);
    assert(is_slot(before[i], vote.vote_type, a));
    let k = slot(before, vote.vote_type, a);
    assert(is_slot(before[k], vote.vote_type, a));
    assert(k == i);
    let m = old(keeper)@.evidence;
    let n = final(keeper)@.evidence;
    let first = before[i];
    assert(n == with_evidence(m, first, vote));
    if !m.contains_key(a) {
        assert(n[a][0] == (first, vote));
    } else {
        assert(old(keeper).evidence@.contains_key(a));
        if crate::votekeeper::evidence::holds_pair(m[a], first, vote) {
            let j = choose|j: int|
                0 <= j < m[a].len() && ((#[trigger] m[a][j]) == (first, vote) || m[a][j] == (vote, first));
            assert(m[a].contains(m[a][j]));
        } else if m[a].len() < MAX_EVIDENCE_PER_VALIDATOR {
            assert(n[a][m[a].len() as int] == (first, vote));
        }
    }
}

/// A quorum of precommits is reported as one for anything with a precommit that
/// is for nil or for a value without a quorum of its own, where the round is not
/// one to skip to: after the call the report is among those given for the round,
/// and the call gives it unless it was given before. What else was reported
/// before makes no difference.
pub proof fn law_precommit_any_is_reported<Ctx: Context>(
    keeper: &mut VoteKeeper<Ctx>,
    vote: SignedVote<Ctx>,
    round: Round,
    r: Option<Output<Ctx::ValueId>>,
)
    requires
        call_ensures(VoteKeeper::<Ctx>::apply_vote, (keeper, vote, round), r),
        old(keeper).wf(),
        lists(old(keeper).validator_set.validators@, vote.validator_address),
        !contradicted(votes_before(*old(keeper), vote.round), vote),
        vote.vote_type == VoteType::Precommit,
        quorum_at(*final(keeper), vote.round, VoteType::Precommit, None),
        vote.value is Nil || !quorum_at(
            *final(keeper),
            vote.round,
            VoteType::Precommit,
            Some(vote.value),
        ),
        !is_ahead(*final(keeper), vote.round, round),
    ensures
        final(keeper)@.at(vote.round).emitted.contains(Output::PrecommitAny),
        r == if old(keeper)@.at(vote.round).emitted.contains(Output::PrecommitAny) {
            None
        } else {
            Some(Output::<Ctx::ValueId>::PrecommitAny)
        },
{
    lemma_known(*old(keeper), vote.round);
    lemma_contradicted(votes_before(*old(keeper), vote.round), vote);
    lemma_emitted(keeper, vote, round, r);
}

/// What a call reports is remembered behind what was reported before.
proof fn lemma_emitted<Ctx: Context>(
    keeper: &mut VoteKeeper<Ctx>,
    vote: SignedVote<Ctx>,
    round: Round,
    r: Option<Output<Ctx::ValueId>>,
)
    requires
        call_ensures(VoteKeeper::<Ctx>::apply_vote, (keeper, vote, round), r),
    ensures
        r matches Some(o) ==> final(keeper)@.at(vote.round).emitted.contains(o),
        final(keeper)@.at(vote.round).emitted == match r {
            Some(o) => old(keeper)@.at(vote.round).emitted.push(o),
            None => old(keeper)@.at(vote.round).emitted,
        },
{
    if let Some(o) = r {
        let was = old(keeper)@.at(vote.round).emitted;
        assert(was.push(o)[was.len() as int] == o);
    }
}

/// What a call reports was not reported for the round before, and is remembered
/// for it; a call that reports nothing leaves what was reported as it was.
pub proof fn law_report_is_remembered<Ctx: Context>(
    keeper: &mut VoteKeeper<Ctx>,
    vote: SignedVote<Ctx>,
    round: Round,
    r: Option<Output<Ctx::ValueId>>,
)
    requires
        call_ensures(VoteKeeper::<Ctx>::apply_vote, (keeper, vote, round), r),
    ensures
        final(keeper)@.at(vote.round).emitted == match r {
            Some(o) => old(keeper)@.at(vote.round).emitted.push(o),
            None => old(keeper)@.at(vote.round).emitted,
        },
        r matches Some(o) ==> !old(keeper)@.at(vote.round).emitted.contains(o),
        forall|q: Round| q != vote.round ==> final(keeper)@.at(q) == old(keeper)@.at(q),
{
    lemma_emitted(keeper, vote, round, r);
}

/// A value with a quorum of precommits is reported with a precommit for it, also
/// where the round is one to skip to.
pub proof fn law_precommit_value_is_reported<Ctx: Context>(
    keeper: &mut VoteKeeper<Ctx>,
    vote: SignedVote<Ctx>,
    v: Ctx::ValueId,
    round: Round,
    r: Option<Output<Ctx::ValueId>>,
)
    requires
        call_ensures(VoteKeeper::<Ctx>::apply_vote, (keeper, vote, round), r),
        old(keeper).wf(),
        lists(old(keeper).validator_set.validators@, vote.validator_address),
        !contradicted(votes_before(*old(keeper), vote.round), vote),
        vote.vote_type == VoteType::Precommit,
        vote.value == NilOrVal::Val(v),
        quorum_at(*final(keeper), vote.round, VoteType::Precommit, Some(vote.value)),
    ensures
        final(keeper)@.at(vote.round).emitted.contains(Output::PrecommitValue(v)),
        r == if old(keeper)@.at(vote.round).emitted.contains(Output::PrecommitValue(v)) {
            None
        } else {
            Some(Output::PrecommitValue(v))
        },
{
    lemma_known(*old(keeper), vote.round);
    lemma_contradicted(votes_before(*old(keeper), vote.round), vote);
    lemma_emitted(keeper, vote, round, r);
}

/// A quorum of prevotes is reported with a prevote: for what the vote is for,
/// where that has a quorum itself, and for anything otherwise. Only the prevote
/// with which the keeper first advises to skip to the round is left out.
pub proof fn law_polka_is_reported<Ctx: Context>(
    keeper: &mut VoteKeeper<Ctx>,
    vote: SignedVote<Ctx>,
    round: Round,
    r: Option<Output<Ctx::ValueId>>,
    polka: Output<Ctx::ValueId>,
)
    requires
        call_ensures(VoteKeeper::<Ctx>::apply_vote, (keeper, vote, round), r),
        old(keeper).wf(),
        lists(old(keeper).validator_set.validators@, vote.validator_address),
        !contradicted(votes_before(*old(keeper), vote.round), vote),
        vote.vote_type == VoteType::Prevote,
        match polka {
            Output::PolkaValue(v) => vote.value == NilOrVal::Val(v) && quorum_at(
                *final(keeper),
                vote.round,
                VoteType::Prevote,
                Some(vote.value),
            ),
            Output::PolkaNil => vote.value is Nil && quorum_at(
                *final(keeper),
                vote.round,
                VoteType::Prevote,
                Some(vote.value),
            ),
            Output::PolkaAny => quorum_at(*final(keeper), vote.round, VoteType::Prevote, None)
                && !quorum_at(*final(keeper), vote.round, VoteType::Prevote, Some(vote.value)),
            _ => false,
        },
        !is_ahead(*final(keeper), vote.round, round) || old(keeper)@.at(vote.round).emitted.contains(
            Output::SkipRound(vote.round),
        ),
    ensures
        final(keeper)@.at(vote.round).emitted.contains(polka),
        r == if old(keeper)@.at(vote.round).emitted.contains(polka) {
            None
        } else {
            Some(polka)
        },
{
    lemma_known(*old(keeper), vote.round);
    lemma_contradicted(votes_before(*old(keeper), vote.round), vote);
    lemma_emitted(keeper, vote, round, r);
}

/// Where voters with at least one honest vote among them are at a later round,
/// the advice to skip to it is given, unless it was, or a precommit completes a
/// quorum for its value.
pub proof fn law_skip_is_advised<Ctx: Context>(
    keeper: &mut VoteKeeper<Ctx>,
    vote: SignedVote<Ctx>,
    round: Round,
    r: Option<Output<Ctx::ValueId>>,
)
    requires
        call_ensures(VoteKeeper::<Ctx>::apply_vote, (keeper, vote, round), r),
        old(keeper).wf(),
        lists(old(keeper).validator_set.validators@, vote.validator_address),
        !contradicted(votes_before(*old(keeper), vote.round), vote),
        is_ahead(*final(keeper), vote.round, round),
        !(vote.vote_type == VoteType::Precommit && vote.value is Val && quorum_at(
            *final(keeper),
            vote.round,
            VoteType::Precommit,
            Some(vote.value),
        )),
    ensures
        final(keeper)@.at(vote.round).emitted.contains(Output::SkipRound(vote.round)),
        !old(keeper)@.at(vote.round).emitted.contains(Output::SkipRound(vote.round)) ==> r == Some(
            Output::<Ctx::ValueId>::SkipRound(vote.round),
        ),
        vote.vote_type == VoteType::Precommit && old(keeper)@.at(vote.round).emitted.contains(
            Output::SkipRound(vote.round),
        ) ==> r is None,
{
    let was = old(keeper)@.at(vote.round).emitted;
    lemma_known(*old(keeper), vote.round);
    lemma_contradicted(votes_before(*old(keeper), vote.round), vote);
    lemma_emitted(keeper, vote, round, r);
    if was.contains(Output::SkipRound(vote.round)) {
        if let Some(o) = r {
            lemma_push_contains(was, o, Output::SkipRound(vote.round));
        }
    }
}

/// A call reports only what the weights after it hold: a polka with a prevote and
/// a quorum of precommits with a precommit, for what the vote is for, or for
/// anything, and the advice to skip with a vote of a later round. A call for a
/// validator that is not listed reports nothing.
pub proof fn law_report_is_backed<Ctx: Context>(
    keeper: &mut VoteKeeper<Ctx>,
    vote: SignedVote<Ctx>,
    round: Round,
    r: Option<Output<Ctx::ValueId>>,
    o: Output<Ctx::ValueId>,
)
    requires
        call_ensures(VoteKeeper::<Ctx>::apply_vote, (keeper, vote, round), r),
        r == Some(o),
    ensures
        lists(old(keeper).validator_set.validators@, vote.validator_address),
        ({
            let k = *final(keeper);
            let q = vote.round;
            match o {
                Output::PolkaValue(v) => vote.vote_type == VoteType::Prevote && vote.value
                    == NilOrVal::Val(v) && quorum_at(k, q, VoteType::Prevote, Some(vote.value)),
                Output::PolkaNil => vote.vote_type == VoteType::Prevote && vote.value is Nil
                    && quorum_at(k, q, VoteType::Prevote, Some(vote.value)),
                Output::PolkaAny => vote.vote_type == VoteType::Prevote && quorum_at(
                    k,
                    q,
                    VoteType::Prevote,
                    None,
                ) && !quorum_at(k, q, VoteType::Prevote, Some(vote.value)),
                Output::PrecommitValue(v) => vote.vote_type == VoteType::Precommit && vote.value
                    == NilOrVal::Val(v) && quorum_at(k, q, VoteType::Precommit, Some(vote.value)),
                Output::PrecommitAny => vote.vote_type == VoteType::Precommit && (quorum_at(
                    k,
                    q,
                    VoteType::Precommit,
                    None,
                ) || quorum_at(k, q, VoteType::Precommit, Some(vote.value))) && (vote.value is Nil
                    || !quorum_at(k, q, VoteType::Precommit, Some(vote.value))),
                Output::SkipRound(n) => n == q && is_ahead(k, q, round),
            }
        }),
{
}

/// A vote of a validator that is not listed reports nothing, and nothing that is
/// known of any round, and no evidence, changes.
pub proof fn law_stranger_changes_nothing<Ctx: Context>(
    keeper: &mut VoteKeeper<Ctx>,
    vote: SignedVote<Ctx>,
    round: Round,
    r: Option<Output<Ctx::ValueId>>,
)
    requires
        call_ensures(VoteKeeper::<Ctx>::apply_vote, (keeper, vote, round), r),
        forall|i: int|
            0 <= i < old(keeper).validator_set.validators@.len() ==> (
            #[trigger] old(keeper).validator_set.validators@[i]).address != vote.validator_address,
    ensures
        r is None,
        forall|q: Round| final(keeper)@.at(q) == old(keeper)@.at(q),
        final(keeper)@.evidence == old(keeper)@.evidence,
{
}

/// A value that a call reports as having a quorum has one when the keeper is asked.
pub proof fn law_report_agrees_with_question<Ctx: Context>(
    keeper: &mut VoteKeeper<Ctx>,
    vote: SignedVote<Ctx>,
    round: Round,
    r: Option<Output<Ctx::ValueId>>,
    asked: &VoteKeeper<Ctx>,
    at: Round,
    t: VoteType,
    threshold: Threshold<Ctx::ValueId>,
    answer: bool,
)
    requires
        call_ensures(VoteKeeper::<Ctx>::apply_vote, (keeper, vote, round), r),
        *asked == *final(keeper),
        at == vote.round,
        call_ensures(VoteKeeper::<Ctx>::is_threshold_met, (asked, &at, t, threshold), answer),
        match threshold {
            Threshold::Value(v) => (t == VoteType::Prevote && r == Some(Output::PolkaValue(v))) || (t
                == VoteType::Precommit && r == Some(Output::PrecommitValue(v))),
            Threshold::Nil => t == VoteType::Prevote && r == Some(Output::<Ctx::ValueId>::PolkaNil),
            Threshold::Any => t == VoteType::Prevote && r == Some(Output::<Ctx::ValueId>::PolkaAny),
            Threshold::Unreached => false,
        },
    ensures
        answer,
{
}

/// Whether a threshold is met, when the keeper is asked, is whether the weight of
/// the recorded votes is a quorum.
pub proof fn law_question_is_about_weight<Ctx: Context>(
    keeper: &VoteKeeper<Ctx>,
    at: Round,
    t: VoteType,
    threshold: Threshold<Ctx::ValueId>,
    answer: bool,
)
    requires
        call_ensures(VoteKeeper::<Ctx>::is_threshold_met, (keeper, &at, t, threshold), answer),
        keeper@.rounds.contains_key(at),
    ensures
        answer == match threshold {
            Threshold::Value(v) => quorum_at(*keeper, at, t, Some(NilOrVal::Val(v))),
            Threshold::Nil => quorum_at(*keeper, at, t, Some(NilOrVal::Nil)),
            Threshold::Any => quorum_at(*keeper, at, t, None),
            Threshold::Unreached => false,
        },
{
}

/// By default a quorum is more than two thirds of the voting power, and more than
/// one third holds an honest vote.
pub proof fn law_classic_thresholds(
    params: ThresholdParams,
    weight: Weight,
    total: Weight,
    quorum: bool,
    honest: bool,
)
    requires
        call_ensures(<ThresholdParams as Default>::default, (), params),
        call_ensures(ThresholdParam::is_met, (&params.quorum, weight, total), quorum),
        call_ensures(ThresholdParam::is_met, (&params.honest, weight, total), honest),
    ensures
        quorum == (3 * weight > 2 * total),
        honest == (3 * weight > total),
{
}

/// Taking the evidence out gives all of it and leaves none, and the votes stay.
pub proof fn law_evidence_is_taken_once<Ctx: Context>(keeper: &mut VoteKeeper<Ctx>, r: EvidenceMap<Ctx>)
    requires
        call_ensures(VoteKeeper::<Ctx>::take_evidence, (keeper,), r),
    ensures
        r@ == old(keeper)@.evidence,
        forall|a: Ctx::Address| !final(keeper)@.evidence.contains_key(a),
        final(keeper)@.rounds == old(keeper)@.rounds,
{
}

/// The precommits for a value are all those recorded votes that are.
pub proof fn law_precommits_are_found<Ctx: Context>(
    p: &PerRound<Ctx>,
    v: Ctx::ValueId,
    r: Vec<SignedVote<Ctx>>,
    vote: SignedVote<Ctx>,
)
    requires
        call_ensures(PerRound::<Ctx>::precommits_for_value, (p, &v), r),
    ensures
        r@.contains(vote) == (p.received_votes@.contains(vote) && vote.vote_type == VoteType::Precommit
            && vote.value == NilOrVal::Val(v)),
{
    lemma_precommits(p.received_votes@, v, vote);
}

proof fn lemma_precommits<Ctx: Context>(votes: Seq<SignedVote<Ctx>>, v: Ctx::ValueId, vote: SignedVote<Ctx>)
    ensures
        precommits_for(votes, v).contains(vote) == (votes.contains(vote) && vote.vote_type
            == VoteType::Precommit && vote.value == NilOrVal::Val(v)),
    decreases votes.len(),
{
    if votes.len() > 0 {
        let rest = votes.drop_last();
        lemma_precommits(rest, v, vote);
        lemma_push_contains(precommits_for(rest, v), votes.last(), vote);
        lemma_push_contains(rest, votes.last(), vote);
        assert(rest.push(votes.last()) =~= votes);
    }
}

/// A first vote for something of a listed validator is counted by the fast keeper:
/// it is recorded, and adds the voting power of its validator to the weight of
/// what it is for and to the weight of all votes.
pub proof fn law_fast_first_vote_counts<Ctx: Context>(
    keeper: &mut FastVoteKeeper<Ctx>,
    vote: SignedVote<Ctx>,
    r: Vec<FastOutput<Ctx::ValueId>>,
    i: int,
    v: NilOrVal<Ctx::ValueId>,
)
    requires
        call_ensures(FastVoteKeeper::<Ctx>::apply_vote, (keeper, vote), r),
        old(keeper).wf(),
        0 <= i < old(keeper).validator_set.validators@.len(),
        old(keeper).validator_set.validators@[i].address == vote.validator_address,
        !voted(old(keeper)@.at(vote.round).votes, vote.validator_address),
    ensures
        ({
            let vs = old(keeper).validator_set.validators@;
            let before = old(keeper)@.at(vote.round);
            let after = final(keeper)@.at(vote.round);
            let power = vs[i].voting_power as nat;
            &&& after.votes == before.votes.push(vote)
            &&& after.weight(v, vs) == before.weight(v, vs) + if v == vote.value {
                power
            } else {
                0
            }
            &&& after.total(vs) == before.total(vs) + power
            &&& final(keeper)@.evidence == old(keeper)@.evidence
            &&& forall|q: Round| q != vote.round ==> final(keeper)@.at(q) == old(keeper)@.at(q)
        }),
{
    let vs = old(keeper).validator_set.validators@;
    let votes = old(keeper)@.at(vote.round).votes;
    let a = vote.validator_address;
    lemma_power_at(vs, i);
    assert(votes.push(vote).drop_last() =~= votes);
    assert(backers(votes, v).push(a).drop_last() =~= backers(votes, v));
    assert(casters(votes).push(a).drop_last() =~= casters(votes));
}

/// The fast keeper reports with a first vote exactly what the weights after it
/// hold and was not reported before: `2f+1` for the value of the vote, a decision
/// for it, and `n - f` for anything.
pub proof fn law_fast_reports_what_holds<Ctx: Context>(
    keeper: &mut FastVoteKeeper<Ctx>,
    vote: SignedVote<Ctx>,
    r: Vec<FastOutput<Ctx::ValueId>>,
    v: Ctx::ValueId,
)
    requires
        call_ensures(FastVoteKeeper::<Ctx>::apply_vote, (keeper, vote), r),
        lists(old(keeper).validator_set.validators@, vote.validator_address),
        !voted(old(keeper)@.at(vote.round).votes, vote.validator_address),
    ensures
        ({
            let vs = old(keeper).validator_set.validators@;
            let params = old(keeper).threshold_params;
            let before = old(keeper)@.at(vote.round);
            let after = final(keeper)@.at(vote.round);
            let total = total_power(vs);
            &&& r@.contains(FastOutput::VoteQuorumValue(v)) == (vote.value == NilOrVal::Val(v)
                && exceeds(params.quorum, after.weight(vote.value, vs), total)
                && !before.vote_quorum.contains(v))
            &&& r@.contains(FastOutput::DecisionQuorumValue(v)) == (vote.value == NilOrVal::Val(v)
                && exceeds(params.decision, after.weight(vote.value, vs), total)
                && !before.decision_quorum.contains(v))
            &&& r@.contains(FastOutput::QuorumAny) == (exceeds(params.decision, after.total(vs), total)
                && !before.quorum_any)
            &&& after.vote_quorum.contains(v) == (before.vote_quorum.contains(v) || r@.contains(
                FastOutput::VoteQuorumValue(v),
            ))
            &&& after.decision_quorum.contains(v) == (before.decision_quorum.contains(v) || r@.contains(
                FastOutput::DecisionQuorumValue(v),
            ))
            &&& after.quorum_any == (before.quorum_any || r@.contains(FastOutput::QuorumAny))
        }),
{
    let vs = old(keeper).validator_set.validators@;
    let known = old(keeper)@.at(vote.round);
    lemma_fast_reports(known, vote, old(keeper).threshold_params, vs, v);
}

/// The fast keeper reports nothing for a vote of a validator that is not listed,
/// or of one that voted before, and then no weight changes. A second vote for
/// something else is evidence.
pub proof fn law_fast_other_votes_do_not_count<Ctx: Context>(
    keeper: &mut FastVoteKeeper<Ctx>,
    vote: SignedVote<Ctx>,
    r: Vec<FastOutput<Ctx::ValueId>>,
    i: int,
)
    requires
        call_ensures(FastVoteKeeper::<Ctx>::apply_vote, (keeper, vote), r),
        old(keeper).wf(),
        !lists(old(keeper).validator_set.validators@, vote.validator_address) || (0 <= i < old(
            keeper,
        )@.at(vote.round).votes.len() && old(keeper)@.at(vote.round).votes[i].validator_address
            == vote.validator_address),
    ensures
        r@.len() == 0,
        forall|q: Round| final(keeper)@.at(q) == old(keeper)@.at(q),
        final(keeper)@.evidence == if lists(
            old(keeper).validator_set.validators@,
            vote.validator_address,
        ) && old(keeper)@.at(vote.round).votes[i].value != vote.value {
            with_evidence(old(keeper)@.evidence, old(keeper)@.at(vote.round).votes[i], vote)
        } else {
            old(keeper)@.evidence
        },
{
    let votes = old(keeper)@.at(vote.round).votes;
    if lists(old(keeper).validator_set.validators@, vote.validator_address) {
        assert(voted(votes, vote.validator_address));
        let k = crate::votekeeper::fast::keeper::vote_index(votes, vote.validator_address);
        assert(old(keeper)@.rounds.contains_key(vote.round));
        assert(old(keeper).per_round@.contains_key(vote.round));
        assert(old(keeper).per_round@[vote.round].tallies(
            vote.round,
            old(keeper).validator_set.validators@,
        ));
        assert(votes[k].validator_address == votes[i].validator_address);
        assert(k == i);
    }
}

/// Whether a value has `2f+1` votes, or is decided, when the fast keeper is asked,
/// is whether the weight of its votes is enough.
pub proof fn law_fast_question_is_about_weight<Ctx: Context>(
    keeper: &FastVoteKeeper<Ctx>,
    round: Round,
    v: Ctx::ValueId,
    valid: bool,
    decided: bool,
)
    requires
        call_ensures(FastVoteKeeper::<Ctx>::has_vote_quorum, (keeper, round, &v), valid),
        call_ensures(FastVoteKeeper::<Ctx>::has_decision_quorum, (keeper, round, &v), decided),
        keeper@.rounds.contains_key(round),
    ensures
        ({
            let vs = keeper.validator_set.validators@;
            let weight = weight_of::<Ctx>(
                backers(keeper@.at(round).votes, NilOrVal::Val(v)),
                vs,
            );
            &&& valid == (weight * keeper.threshold_params.quorum.denominator > total_power(vs)
                * keeper.threshold_params.quorum.numerator)
            &&& decided == (weight * keeper.threshold_params.decision.denominator > total_power(vs)
                * keeper.threshold_params.decision.numerator)
        }),
{
}

} // verus!
