//! What is kept of votes, evidence and validators, and what of it is found again.

use vstd::prelude::*;

use crate::types::{
    distinct_addresses, total_power, ConsensusProtocol, Context, NilOrVal, Round, SignedVote,
    ThresholdParam, Validator, ValidatorSet, VoteType, Weight,
};
use crate::votekeeper::call_laws::{contradicted, is_first};
use crate::votekeeper::evidence::EvidenceMap;
use crate::votekeeper::fast::keeper::FastVoteKeeper;
use crate::votekeeper::keeper::{
    has_slot, is_slot, one_vote_each, slot, PerRound, RecordVoteError, VoteKeeper,
};
use crate::votekeeper::tally::{RoundVotes, RoundWeights, ValuesWeights, VoteCount};

verus! {

/// Whether `vote` is among `votes`, but perhaps for its extension: a vote of the
/// same validator, type and value, with an extension where `vote` has one.
pub open spec fn is_known<Ctx: Context>(votes: Seq<SignedVote<Ctx>>, vote: SignedVote<Ctx>) -> bool {
    exists|i: int|
        0 <= i < votes.len() && (#[trigger] votes[i]).vote_type == vote.vote_type
            && votes[i].validator_address == vote.validator_address && votes[i].value == vote.value && (
        vote.extension is Some ==> votes[i].extension is Some)
}

proof fn lemma_the_slot<Ctx: Context>(votes: Seq<SignedVote<Ctx>>, t: VoteType, a: Ctx::Address, i: int)
    requires
        one_vote_each(votes),
        0 <= i < votes.len(),
        votes[i].vote_type == t,
        votes[i].validator_address == a,
    ensures
        has_slot(votes, t, a),
        slot(votes, t, a) == i,
{
    assert(is_slot(votes[i], t, a));
    let k = slot(votes, t, a);
    assert(is_slot(votes[k], t, a));
}

/// A vote is said to be had exactly where its round has it.
pub proof fn law_vote_is_had<Ctx: Context>(keeper: &VoteKeeper<Ctx>, vote: SignedVote<Ctx>, r: bool)
    requires
        keeper.wf(),
        call_ensures(VoteKeeper::<Ctx>::has_vote, (keeper, &vote), r),
    ensures
        !keeper@.rounds.contains_key(vote.round) ==> !r,
        keeper@.rounds.contains_key(vote.round) ==> r == is_known(
            keeper@.rounds[vote.round].received,
            vote,
        ),
{
    if keeper@.rounds.contains_key(vote.round) {
        let votes = keeper@.rounds[vote.round].received;
        assert(keeper.per_round@.contains_key(vote.round));
        assert(one_vote_each(votes));
        let t = vote.vote_type;
        let a = vote.validator_address;
        if is_known(votes, vote) {
            let i = choose|i: int|
                0 <= i < votes.len() && (#[trigger] votes[i]).vote_type == t && votes[i].validator_address
                    == a && votes[i].value == vote.value && (vote.extension is Some
                    ==> votes[i].extension is Some);
            lemma_the_slot(votes, t, a, i);
        }
        if r {
            let k = slot(votes, t, a);
            assert(is_slot(votes[k], t, a));
        }
    }
}

/// Dropping old votes keeps the rounds from the given one on, as they are, and no
/// earlier one, and all evidence.
pub proof fn law_old_votes_are_dropped<Ctx: Context>(
    keeper: &mut VoteKeeper<Ctx>,
    min_round: Round,
    round: Round,
)
    requires
        old(keeper).wf(),
        call_ensures(VoteKeeper::<Ctx>::prune_votes, (keeper, min_round), ()),
    ensures
        round.number() < min_round.number() ==> !final(keeper)@.rounds.contains_key(round),
        round.number() >= min_round.number() ==> final(keeper)@.rounds.contains_key(round) == old(keeper)@.rounds.contains_key(round),
        final(keeper)@.rounds.contains_key(round) ==> final(keeper)@.rounds[round]
            == old(keeper)@.rounds[round],
        final(keeper)@.evidence == old(keeper)@.evidence,
{
}

/// The same holds of the fast keeper.
pub proof fn law_fast_old_votes_are_dropped<Ctx: Context>(
    keeper: &mut FastVoteKeeper<Ctx>,
    min_round: Round,
    round: Round,
)
    requires
        old(keeper).wf(),
        call_ensures(FastVoteKeeper::<Ctx>::prune_votes, (keeper, min_round), ()),
    ensures
        round.number() < min_round.number() ==> !final(keeper)@.rounds.contains_key(round),
        round.number() >= min_round.number() ==> final(keeper)@.rounds.contains_key(round) == old(keeper)@.rounds.contains_key(round),
        final(keeper)@.rounds.contains_key(round) ==> final(keeper)@.rounds[round]
            == old(keeper)@.rounds[round],
        final(keeper)@.evidence == old(keeper)@.evidence,
{
}

/// A round takes a vote unless its validator voted for something else: the first
/// vote counts with its weight, for its value and its type alone, and its validator
/// with the first weight it came with; any other vote counts for nothing more.
pub proof fn law_round_takes_votes<Ctx: Context>(
    round: &mut PerRound<Ctx>,
    vote: SignedVote<Ctx>,
    weight: Weight,
    r: Result<(), RecordVoteError<Ctx>>,
    t: VoteType,
    v: NilOrVal<Ctx::ValueId>,
)
    requires
        old(round).wf(),
        call_ensures(PerRound::<Ctx>::add, (round, vote, weight), r),
    ensures
        r is Err <==> contradicted(old(round).received_votes@, vote),
        r matches Err(RecordVoteError::ConflictingVote { existing, conflicting }) ==> conflicting == vote
            && existing.vote_type == vote.vote_type && existing.validator_address
            == vote.validator_address && existing.value != vote.value && old(round).received_votes@.contains(existing) && *final(round) == *old(round),
        is_first(old(round).received_votes@, vote) ==> final(round).received_votes@ == old(round).received_votes@.push(vote),
        is_first(old(round).received_votes@, vote) && t == vote.vote_type && v == vote.value
            ==> final(round).votes.weight(t, v) == old(round).votes.weight(t, v) + weight,
        is_first(old(round).received_votes@, vote) && t == vote.vote_type ==> final(round).votes.total(t)
            == old(round).votes.total(t) + weight,
        !(is_first(old(round).received_votes@, vote) && t == vote.vote_type) ==> final(round).votes.total(t) == old(round).votes.total(t),
        !(is_first(old(round).received_votes@, vote) && t == vote.vote_type && v == vote.value)
            ==> final(round).votes.weight(t, v) == old(round).votes.weight(t, v),
        final(round).emitted_outputs@ == old(round).emitted_outputs@,
{
    let votes = old(round).received_votes@;
    let a = vote.validator_address;
    if contradicted(votes, vote) {
        let i = choose|i: int|
            0 <= i < votes.len() && (#[trigger] votes[i]).vote_type == vote.vote_type
                && votes[i].validator_address == a && votes[i].value != vote.value;
        lemma_the_slot(votes, vote.vote_type, a, i);
        assert(!is_first(votes, vote));
    }
    if is_first(votes, vote) {
        assert(!has_slot(votes, vote.vote_type, a)) by {
            if has_slot(votes, vote.vote_type, a) {
                let k = slot(votes, vote.vote_type, a);
                assert(is_slot(votes[k], vote.vote_type, a));
            }
        }
    } else {
        let i = choose|i: int|
            0 <= i < votes.len() && (#[trigger] votes[i]).vote_type == vote.vote_type
                && votes[i].validator_address == a;
        lemma_the_slot(votes, vote.vote_type, a, i);
    }
    if r is Err {
        let k = slot(votes, vote.vote_type, a);
        assert(is_slot(votes[k], vote.vote_type, a));
        assert(votes.contains(votes[k]));
    }
    assert(final(round).votes.count(t) == final(round).votes.count(t));
    assert(old(round).votes.count(t) == old(round).votes.count(t));
}

/// A vote of a round is found by its type and validator, and nothing else is.
pub proof fn law_vote_is_found<Ctx: Context>(
    round: &PerRound<Ctx>,
    t: VoteType,
    a: Ctx::Address,
    r: Option<&SignedVote<Ctx>>,
    i: int,
)
    requires
        round.wf(),
        call_ensures(PerRound::<Ctx>::get_vote, (round, t, &a), r),
        0 <= i < round.received_votes@.len(),
        round.received_votes@[i].vote_type == t && round.received_votes@[i].validator_address == a,
    ensures
        r == Some(&round.received_votes@[i]),
{
    lemma_the_slot(round.received_votes@, t, a, i);
}

/// A weight that was added is there when it is asked for, on top of what was there,
/// and no other value gets any of it.
pub proof fn law_weights_add_up<Ctx: Context>(
    weights: &mut ValuesWeights<NilOrVal<Ctx::ValueId>>,
    value: NilOrVal<Ctx::ValueId>,
    other: NilOrVal<Ctx::ValueId>,
    weight: Weight,
    sum: Weight,
    before: &ValuesWeights<NilOrVal<Ctx::ValueId>>,
    after: &ValuesWeights<NilOrVal<Ctx::ValueId>>,
    was: Weight,
    is: Weight,
    other_was: Weight,
    other_is: Weight,
    all_was: Weight,
    all_is: Weight,
)
    requires
        old(weights).wf(),
        *before == *old(weights),
        *after == *final(weights),
        call_ensures(ValuesWeights::<NilOrVal<Ctx::ValueId>>::add, (weights, value, weight), sum),
        call_ensures(ValuesWeights::<NilOrVal<Ctx::ValueId>>::get, (before, &value), was),
        call_ensures(ValuesWeights::<NilOrVal<Ctx::ValueId>>::get, (after, &value), is),
        call_ensures(ValuesWeights::<NilOrVal<Ctx::ValueId>>::get, (before, &other), other_was),
        call_ensures(ValuesWeights::<NilOrVal<Ctx::ValueId>>::get, (after, &other), other_is),
        call_ensures(ValuesWeights::<NilOrVal<Ctx::ValueId>>::sum, (before,), all_was),
        call_ensures(ValuesWeights::<NilOrVal<Ctx::ValueId>>::sum, (after,), all_is),
    ensures
        is == was + weight,
        sum == is,
        other != value ==> other_is == other_was,
        all_is == all_was + weight,
{
    assert(final(weights).weight(value) == old(weights).weight(value) + weight);
    assert(final(weights).weight(other) == final(weights).weight(other));
}

/// A voter has the weight that came first, and other voters keep theirs.
pub proof fn law_voter_is_weighed_once<A: crate::ident::Ident>(
    weights: &mut RoundWeights<A>,
    address: A,
    weight: Weight,
    i: int,
)
    requires
        old(weights).wf(),
        call_ensures(RoundWeights::<A>::set_once, (weights, &address, weight), ()),
    ensures
        0 <= i < old(weights).weights@.len() ==> final(weights).weights@[i] == old(weights).weights@[i],
        (exists|j: int| 0 <= j < old(weights).weights@.len() && (#[trigger] old(weights).weights@[j]).0
            == address) ==> final(weights).weights@.len() == old(weights).weights@.len(),
        !(exists|j: int| 0 <= j < old(weights).weights@.len() && (#[trigger] old(weights).weights@[j]).0
            == address) ==> final(weights).weights@ == old(weights).weights@.push((address, weight)),
{
}

/// Two contradicting votes are kept as evidence against their validator: a first
/// pair always; a further one while there are fewer than three, unless it is there
/// in either order; and evidence against others stays as it is.
pub proof fn law_evidence_is_kept<Ctx: Context>(
    evidence: &mut EvidenceMap<Ctx>,
    existing: SignedVote<Ctx>,
    conflicting: SignedVote<Ctx>,
    other: Ctx::Address,
)
    requires
        old(evidence).wf(),
        existing.validator_address == conflicting.validator_address,
        call_ensures(EvidenceMap::<Ctx>::add, (evidence, existing, conflicting), ()),
    ensures
        ({
            let a = conflicting.validator_address;
            let before = old(evidence)@;
            let after = final(evidence)@;
            &&& after.contains_key(a)
            &&& !before.contains_key(a) ==> after[a] == seq![(existing, conflicting)]
            &&& before.contains_key(a) && (before[a].contains((existing, conflicting))
                || before[a].contains((conflicting, existing)) || before[a].len() >= 3) ==> after[a]
                == before[a]
            &&& before.contains_key(a) && !before[a].contains((existing, conflicting))
                && !before[a].contains((conflicting, existing)) && before[a].len() < 3 ==> after[a]
                == before[a].push((existing, conflicting))
            &&& other != a ==> after.contains_key(other) == before.contains_key(other)
            &&& other != a && before.contains_key(other) ==> after[other] == before[other]
        }),
{
}

/// What evidence there is against a validator is what asking for it gives.
pub proof fn law_evidence_is_found<Ctx: Context>(
    evidence: &EvidenceMap<Ctx>,
    a: Ctx::Address,
    r: Option<&Vec<(SignedVote<Ctx>, SignedVote<Ctx>)>>,
    empty: bool,
)
    requires
        evidence.wf(),
        call_ensures(EvidenceMap::<Ctx>::get, (evidence, &a), r),
        call_ensures(EvidenceMap::<Ctx>::is_empty, (evidence,), empty),
    ensures
        r is Some <==> evidence@.contains_key(a),
        r matches Some(pairs) ==> pairs@ == evidence@[a] && !empty,
{
}

/// Validators make a set exactly where no two share an address and their power
/// fits; the set has their power in all, and each is found under its address.
pub proof fn law_validators_are_found<Ctx: Context>(
    validators: Vec<Validator<Ctx>>,
    set: Option<ValidatorSet<Ctx>>,
    total: Weight,
    i: int,
    a: Ctx::Address,
    r: Option<&Validator<Ctx>>,
)
    requires
        call_ensures(ValidatorSet::<Ctx>::new, (validators,), set),
        set matches Some(s) ==> call_ensures(ValidatorSet::<Ctx>::total_voting_power, (&s,), total)
            && call_ensures(ValidatorSet::<Ctx>::get_by_address, (&s, &a), r),
        0 <= i < validators@.len(),
    ensures
        (exists|j: int, k: int|
            #![trigger validators@[j], validators@[k]]
            0 <= j < k < validators@.len() && validators@[j].address == validators@[k].address)
            ==> set is None,
        total_power(validators@) > u64::MAX ==> set is None,
        distinct_addresses(validators@) && total_power(validators@) <= u64::MAX ==> set is Some,
        set is Some && a == validators@[i].address ==> (r matches Some(v) && v.address == a
            && v.voting_power == validators@[i].voting_power),
        set is Some && (forall|j: int| 0 <= j < validators@.len() ==> (#[trigger] validators@[j]).address
            != a) ==> r is None,
        set is Some ==> total == total_power(validators@),
        set is Some && validators@.len() == 1 ==> total == validators@[0].voting_power,
        set is Some ==> validators@[i].voting_power <= total,
{
    if set is Some {
        assert(distinct_addresses(validators@));
        lemma_power_is_part(validators@, i);
        if let Some(v) = r {
            let k = choose|k: int| 0 <= k < validators@.len() && validators@[k] == *v;
            assert(validators@[k].address == a);
        } else {
            assert(!set->0.has(a));
        }
        if validators@.len() == 1 {
            assert(validators@.drop_last() =~= Seq::<Validator<Ctx>>::empty());
            assert(total_power(validators@.drop_last()) == 0);
        }
    }
}

proof fn lemma_power_is_part<Ctx: Context>(vs: Seq<Validator<Ctx>>, i: int)
    requires
        0 <= i < vs.len(),
    ensures
        vs[i].voting_power <= total_power(vs),
    decreases vs.len(),
{
    if i < vs.len() - 1 {
        lemma_power_is_part(vs.drop_last(), i);
    }
}

/// The classic protocol decides, and holds a value, with more than two thirds, and
/// more than one third holds an honest vote; the fast one decides with more than
/// four fifths and holds a value with more than two fifths.
pub proof fn law_protocols_have_their_thresholds(
    protocol: ConsensusProtocol,
    decision: ThresholdParam,
    quorum: ThresholdParam,
    honest: Option<ThresholdParam>,
)
    requires
        call_ensures(ConsensusProtocol::decision, (&protocol,), decision),
        call_ensures(ConsensusProtocol::quorum, (&protocol,), quorum),
        call_ensures(ConsensusProtocol::honest, (&protocol,), honest),
    ensures
        protocol == ConsensusProtocol::Classic ==> decision.numerator * 3 == decision.denominator * 2
            && decision.denominator > 0 && quorum == decision && (honest matches Some(h) && h.numerator * 3
            == h.denominator && h.denominator > 0),
        protocol == ConsensusProtocol::Fast ==> decision.numerator * 5 == decision.denominator * 4
            && quorum.numerator * 5 == quorum.denominator * 2 && decision.denominator > 0
            && quorum.denominator > 0 && honest is None,
{
}

/// The highest round is the last of those seen, and there is none before any is.
pub proof fn law_highest_round<Ctx: Context>(keeper: &VoteKeeper<Ctx>, r: Round, n: usize, q: Round)
    requires
        keeper.wf(),
        call_ensures(VoteKeeper::<Ctx>::max_round, (keeper,), r),
        call_ensures(VoteKeeper::<Ctx>::rounds, (keeper,), n),
    ensures
        keeper@.rounds.contains_key(q) ==> q.number() <= r.number() && keeper@.rounds.contains_key(r),
        n == keeper@.rounds.len(),
{
    if keeper@.rounds.contains_key(q) {
        assert(keeper@.rounds != Map::<Round, crate::votekeeper::keeper::RoundView<Ctx>>::empty());
    }
}

} // verus!
