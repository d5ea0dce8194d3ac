//! What holds of the fast vote keeper over all the votes that it was given.

use vstd::prelude::*;

use crate::types::{
    distinct_addresses, exceeds, lemma_weight_bounded, lists, total_power, weight_of,
    ConsensusProtocol, Context, NilOrVal, Round, SignedVote, Validator,
};
use crate::votekeeper::fast::keeper::{
    backers, casters, lemma_casters, one_vote_per_validator, reports, voted, Crossed,
    FastKeeperView, FastRoundView, Output,
};
use crate::votekeeper::fast::params::FastThresholdParams;
use crate::votekeeper::keeper::lemma_push_contains;

verus! {

/// What a new keeper knows after `votes`, and all its reports so far, each with
/// its round.
pub open spec fn after_votes<Ctx: Context>(
    votes: Seq<SignedVote<Ctx>>,
    params: FastThresholdParams,
    vs: Seq<Validator<Ctx>>,
) -> (FastKeeperView<Ctx>, Seq<(Round, Output<Ctx::ValueId>)>)
    decreases votes.len(),
{
    if votes.len() == 0 {
        (FastKeeperView { rounds: Map::empty(), evidence: Map::empty() }, Seq::empty())
    } else {
        let (before, log) = after_votes(votes.drop_last(), params, vs);
        let (after, out) = before.apply(votes.last(), params, vs);
        (after, log + at_round(votes.last().round, out))
    }
}

/// Reports, each with its round.
pub open spec fn at_round<V>(r: Round, out: Seq<Output<V>>) -> Seq<(Round, Output<V>)> {
    out.map_values(|o: Output<V>| (r, o))
}

/// Whether the report at `i` that a value is decided has a report before it that
/// the value is valid.
pub open spec fn valid_before<V>(log: Seq<(Round, Output<V>)>, r: Round, v: V, i: int) -> bool {
    exists|j: int| 0 <= j < i && #[trigger] log[j] == (r, Output::VoteQuorumValue(v))
}

/// What was reported of a round is what the keeper remembers of it, and a decided
/// value is backed, valid, and not the first report of the round.
spec fn round_consistent<Ctx: Context>(
    known: FastRoundView<Ctx>,
    log: Seq<(Round, Output<Ctx::ValueId>)>,
    r: Round,
    params: FastThresholdParams,
    vs: Seq<Validator<Ctx>>,
) -> bool {
    &&& one_vote_per_validator(known.votes)
    &&& forall|v: Ctx::ValueId|
        #![trigger known.vote_quorum.contains(v)]
        #![trigger log.contains((r, Output::VoteQuorumValue(v)))]
        log.contains((r, Output::VoteQuorumValue(v))) == known.vote_quorum.contains(v)
    &&& forall|v: Ctx::ValueId|
        #![trigger known.decision_quorum.contains(v)]
        #![trigger log.contains((r, Output::DecisionQuorumValue(v)))]
        log.contains((r, Output::DecisionQuorumValue(v))) == known.decision_quorum.contains(v)
    &&& log.contains((r, Output::QuorumAny)) == known.quorum_any
    &&& forall|v: Ctx::ValueId| #[trigger]
        known.decision_quorum.contains(v) ==> {
            &&& known.vote_quorum.contains(v)
            &&& known.quorum_any
            &&& exceeds(params.decision, known.weight(NilOrVal::Val(v), vs), total_power(vs))
        }
}

/// The reports of every round are consistent, none is repeated, and each decision
/// has its value reported as valid before it.
spec fn consistent<Ctx: Context>(
    k: FastKeeperView<Ctx>,
    log: Seq<(Round, Output<Ctx::ValueId>)>,
    params: FastThresholdParams,
    vs: Seq<Validator<Ctx>>,
) -> bool {
    &&& forall|r: Round| round_consistent(#[trigger] k.at(r), log, r, params, vs)
    &&& log.no_duplicates()
    &&& forall|i: int, r: Round, v: Ctx::ValueId|
        0 <= i < log.len() && #[trigger] log[i] == (r, Output::DecisionQuorumValue(v))
            ==> #[trigger] valid_before(log, r, v, i)
}

proof fn lemma_log_contains<V>(
    log: Seq<(Round, Output<V>)>,
    at: Round,
    out: Seq<Output<V>>,
    r: Round,
    o: Output<V>,
)
    ensures
        (log + at_round(at, out)).contains((r, o)) == (log.contains((r, o)) || (r == at && out.contains(o))),
{
    let more = at_round(at, out);
    let all = log + more;
    if log.contains((r, o)) {
        let i = choose|i: int| 0 <= i < log.len() && log[i] == (r, o);
        assert(all[i] == (r, o));
    }
    if r == at && out.contains(o) {
        let i = choose|i: int| 0 <= i < out.len() && out[i] == o;
        assert(more[i] == (r, o));
        assert(all[log.len() + i] == (r, o));
    }
    if all.contains((r, o)) {
        let i = choose|i: int| 0 <= i < all.len() && all[i] == (r, o);
        if i < log.len() {
            assert(log[i] == (r, o));
        } else {
            assert(more[i - log.len()] == (r, o));
            assert(out[i - log.len()] == o);
        }
    }
}

/// What the reports for crossed thresholds hold.
proof fn lemma_reports<V>(value: NilOrVal<V>, c: Crossed, o: Output<V>)
    ensures
        reports(value, c).contains(o) == match o {
            Output::VoteQuorumValue(v) => c.vote_quorum && value == NilOrVal::Val(v),
            Output::DecisionQuorumValue(v) => c.decision_quorum && value == NilOrVal::Val(v),
            Output::QuorumAny => c.quorum_any,
        },
        reports(value, c).no_duplicates(),
{
    let first: Seq<Output<V>> = match value {
        NilOrVal::Val(id) if c.vote_quorum => seq![Output::VoteQuorumValue(id)],
        _ => Seq::empty(),
    };
    let second = match value {
        NilOrVal::Val(id) if c.decision_quorum => first.push(Output::DecisionQuorumValue(id)),
        _ => first,
    };
    if let NilOrVal::Val(id) = value {
        if c.vote_quorum {
            assert(first =~= Seq::<Output<V>>::empty().push(Output::VoteQuorumValue(id)));
            lemma_push_contains(Seq::<Output<V>>::empty(), Output::VoteQuorumValue(id), o);
        }
        lemma_push_contains(first, Output::DecisionQuorumValue(id), o);
    }
    lemma_push_contains(second, Output::QuorumAny, o);
}

/// Two values together weigh no more than all votes.
proof fn lemma_two_backed<Ctx: Context>(
    votes: Seq<SignedVote<Ctx>>,
    v: NilOrVal<Ctx::ValueId>,
    w: NilOrVal<Ctx::ValueId>,
    vs: Seq<Validator<Ctx>>,
)
    requires
        v != w,
    ensures
        weight_of::<Ctx>(backers(votes, v), vs) + weight_of::<Ctx>(backers(votes, w), vs)
            <= weight_of::<Ctx>(casters(votes), vs),
    decreases votes.len(),
{
    if votes.len() > 0 {
        let rest = votes.drop_last();
        let a = votes.last().validator_address;
        lemma_two_backed(rest, v, w, vs);
        assert(backers(rest, v).push(a).drop_last() =~= backers(rest, v));
        assert(backers(rest, w).push(a).drop_last() =~= backers(rest, w));
        assert(casters(rest).push(a).drop_last() =~= casters(rest));
    }
}

/// All votes together weigh no more than the validator set.
proof fn lemma_cast_bounded<Ctx: Context>(votes: Seq<SignedVote<Ctx>>, vs: Seq<Validator<Ctx>>)
    requires
        one_vote_per_validator(votes),
        distinct_addresses(vs),
    ensures
        weight_of::<Ctx>(casters(votes), vs) <= total_power(vs),
{
    let s = casters(votes);
    lemma_casters(votes);
    assert forall|i: int, j: int| 0 <= i < s.len() && 0 <= j < s.len() && i != j implies s[i] != s[j] by {
        assert(s[i] == votes[i].validator_address);
        assert(s[j] == votes[j].validator_address);
    }
    lemma_weight_bounded::<Ctx>(s, vs);
}

/// What is remembered of thresholds after those of a vote were crossed.
proof fn lemma_latched<Ctx: Context>(
    known: FastRoundView<Ctx>,
    value: NilOrVal<Ctx::ValueId>,
    c: Crossed,
    v: Ctx::ValueId,
)
    ensures
        known.latched(value, c).vote_quorum.contains(v) == (known.vote_quorum.contains(v) || (
        c.vote_quorum && value == NilOrVal::Val(v))),
        known.latched(value, c).decision_quorum.contains(v) == (known.decision_quorum.contains(v) || (
        c.decision_quorum && value == NilOrVal::Val(v))),
{
    if let NilOrVal::Val(id) = value {
        lemma_push_contains(known.vote_quorum, id, v);
        lemma_push_contains(known.decision_quorum, id, v);
    }
}

/// Counting one more vote lowers no weight, and a value weighs no more than all.
proof fn lemma_more_votes<Ctx: Context>(
    votes: Seq<SignedVote<Ctx>>,
    vote: SignedVote<Ctx>,
    v: NilOrVal<Ctx::ValueId>,
    vs: Seq<Validator<Ctx>>,
)
    ensures
        weight_of::<Ctx>(backers(votes, v), vs) <= weight_of::<Ctx>(backers(votes.push(vote), v), vs),
        weight_of::<Ctx>(backers(votes, v), vs) <= weight_of::<Ctx>(casters(votes), vs),
    decreases votes.len(),
{
    let a = vote.validator_address;
    assert(votes.push(vote).drop_last() =~= votes);
    assert(backers(votes, v).push(a).drop_last() =~= backers(votes, v));
    if votes.len() > 0 {
        let rest = votes.drop_last();
        let b = votes.last().validator_address;
        lemma_more_votes(rest, votes.last(), v, vs);
        assert(backers(rest, v).push(b).drop_last() =~= backers(rest, v));
        assert(casters(rest).push(b).drop_last() =~= casters(rest));
    }
}

/// Whether the thresholds are those of the protocol.
pub open spec fn standard(params: FastThresholdParams) -> bool {
    &&& params.decision == ConsensusProtocol::Fast.decision_fraction()
    &&& params.quorum == ConsensusProtocol::Fast.quorum_fraction()
}

/// The thresholds of the protocol, in numbers.
proof fn lemma_standard(params: FastThresholdParams, weight: nat, total: nat)
    requires
        standard(params),
    ensures
        exceeds(params.decision, weight, total) == (5 * weight > 4 * total),
        exceeds(params.quorum, weight, total) == (5 * weight > 2 * total),
{
    assert(params.decision.numerator == 4 && params.decision.denominator == 5);
    assert(params.quorum.numerator == 2 && params.quorum.denominator == 5);
    assert(weight * 5 == 5 * weight && total * 4 == 4 * total && total * 2 == 2 * total);
}

/// Counting a first vote keeps its round consistent.
proof fn lemma_round_step<Ctx: Context>(
    known: FastRoundView<Ctx>,
    log: Seq<(Round, Output<Ctx::ValueId>)>,
    vote: SignedVote<Ctx>,
    params: FastThresholdParams,
    vs: Seq<Validator<Ctx>>,
)
    requires
        round_consistent(known, log, vote.round, params, vs),
        standard(params),
        !voted(known.votes, vote.validator_address),
    ensures
        ({
            let counted = FastRoundView { votes: known.votes.push(vote), ..known };
            let c = counted.crossed(vote.value, params, vs);
            let more = at_round(vote.round, reports(vote.value, c));
            round_consistent(counted.latched(vote.value, c), log + more, vote.round, params, vs)
        }),
{
    let counted = FastRoundView { votes: known.votes.push(vote), ..known };
    let c = counted.crossed(vote.value, params, vs);
    let out = reports(vote.value, c);
    let all = log + at_round(vote.round, out);
    let next = counted.latched(vote.value, c);
    let r = vote.round;
    assert(one_vote_per_validator(next.votes)) by {
        let votes = next.votes;
        assert forall|i: int, j: int|
            #![trigger votes[i], votes[j]]
            0 <= i < j < votes.len() implies votes[i].validator_address != votes[j].validator_address by {
            assert(votes[i] == known.votes[i]);
            if j < known.votes.len() {
                assert(votes[j] == known.votes[j]);
            }
        }
    }
    assert forall|v: Ctx::ValueId|
        #![trigger next.vote_quorum.contains(v)]
        #![trigger all.contains((r, Output::VoteQuorumValue(v)))]
        all.contains((r, Output::VoteQuorumValue(v))) == next.vote_quorum.contains(v) by {
        lemma_log_contains(log, r, out, r, Output::VoteQuorumValue(v));
        lemma_reports(vote.value, c, Output::VoteQuorumValue(v));
        lemma_latched(counted, vote.value, c, v);
        assert(log.contains((r, Output::VoteQuorumValue(v))) == known.vote_quorum.contains(v));
    }
    assert forall|v: Ctx::ValueId|
        #![trigger next.decision_quorum.contains(v)]
        #![trigger all.contains((r, Output::DecisionQuorumValue(v)))]
        all.contains((r, Output::DecisionQuorumValue(v))) == next.decision_quorum.contains(v) by {
        lemma_log_contains(log, r, out, r, Output::DecisionQuorumValue(v));
        lemma_reports(vote.value, c, Output::DecisionQuorumValue(v));
        lemma_latched(counted, vote.value, c, v);
        assert(log.contains((r, Output::DecisionQuorumValue(v))) == known.decision_quorum.contains(v));
    }
    lemma_log_contains(log, r, out, r, Output::<Ctx::ValueId>::QuorumAny);
    lemma_reports(vote.value, c, Output::<Ctx::ValueId>::QuorumAny);
    assert forall|v: Ctx::ValueId| #[trigger] next.decision_quorum.contains(v) implies {
        &&& next.vote_quorum.contains(v)
        &&& next.quorum_any
        &&& exceeds(params.decision, next.weight(NilOrVal::Val(v), vs), total_power(vs))
    } by {
        lemma_latched(counted, vote.value, c, v);
        lemma_more_votes(known.votes, vote, NilOrVal::Val(v), vs);
        lemma_more_votes(next.votes, vote, NilOrVal::Val(v), vs);
        lemma_standard(params, known.weight(NilOrVal::Val(v), vs), total_power(vs));
        lemma_standard(params, next.weight(NilOrVal::Val(v), vs), total_power(vs));
        lemma_standard(params, next.total(vs), total_power(vs));
        if known.decision_quorum.contains(v) {
            assert(known.vote_quorum.contains(v));
        }
    }
}

/// One more vote keeps everything consistent.
proof fn lemma_step<Ctx: Context>(
    k: FastKeeperView<Ctx>,
    log: Seq<(Round, Output<Ctx::ValueId>)>,
    vote: SignedVote<Ctx>,
    params: FastThresholdParams,
    vs: Seq<Validator<Ctx>>,
)
    requires
        consistent(k, log, params, vs),
        standard(params),
    ensures
        consistent(
            k.apply(vote, params, vs).0,
            log + at_round(vote.round, k.apply(vote, params, vs).1),
            params,
            vs,
        ),
{
    let at = vote.round;
    let known = k.at(at);
    let (next, out) = k.apply(vote, params, vs);
    let all = log + at_round(at, out);
    if lists(vs, vote.validator_address) && !voted(known.votes, vote.validator_address) {
        let counted = FastRoundView { votes: known.votes.push(vote), ..known };
        let c = counted.crossed(vote.value, params, vs);
        assert(out == reports(vote.value, c));
        lemma_round_step(known, log, vote, params, vs);
        assert forall|r: Round| round_consistent(#[trigger] next.at(r), all, r, params, vs) by {
            if r != at {
                assert(next.at(r) == k.at(r));
                let here = k.at(r);
                assert(round_consistent(here, log, r, params, vs));
                assert forall|o: Output<Ctx::ValueId>| #[trigger] all.contains((r, o)) == log.contains((r, o)) by {
                    lemma_log_contains(log, at, out, r, o);
                }
            }
        }
        assert forall|i: int, j: int| 0 <= i < all.len() && 0 <= j < all.len() && i != j implies all[i]
            != all[j] by {
            lemma_new_reports(known, log, vote, params, vs, c);
            let n = log.len() as int;
            lemma_reports(vote.value, c, Output::<Ctx::ValueId>::QuorumAny);
            if i >= n && j >= n {
                assert(out[i - n] != out[j - n]);
            } else if i >= n {
                assert(out.contains(out[i - n]));
                assert(all[i] == (at, out[i - n]));
                assert(log.contains(log[j]));
            } else if j >= n {
                assert(out.contains(out[j - n]));
                assert(all[j] == (at, out[j - n]));
                assert(log.contains(log[i]));
            }
        }
        assert forall|i: int, r: Round, v: Ctx::ValueId|
            0 <= i < all.len() && #[trigger] all[i] == (r, Output::DecisionQuorumValue(v)) implies #[trigger] valid_before(
            all,
            r,
            v,
            i,
        ) by {
            let n = log.len() as int;
            if i < n {
                assert(log[i] == (r, Output::DecisionQuorumValue(v)));
                assert(valid_before(log, r, v, i));
                let j = choose|j: int| 0 <= j < i && #[trigger] log[j] == (r, Output::VoteQuorumValue(v));
                assert(all[j] == (r, Output::VoteQuorumValue(v)));
            } else {
                assert(out[i - n] == Output::DecisionQuorumValue(v));
                assert(out.contains(out[i - n]));
                lemma_reports(vote.value, c, Output::DecisionQuorumValue(v));
                if c.vote_quorum {
                    assert(out[0] == Output::VoteQuorumValue(v));
                    assert(all[n] == (r, Output::VoteQuorumValue(v)));
                } else {
                    lemma_standard(params, counted.weight(vote.value, vs), total_power(vs));
                    assert(known.vote_quorum.contains(v));
                    assert(log.contains((r, Output::VoteQuorumValue(v))));
                    let j = choose|j: int| 0 <= j < n && log[j] == (r, Output::VoteQuorumValue(v));
                    assert(all[j] == (r, Output::VoteQuorumValue(v)));
                }
            }
        }
    } else {
        assert(all =~= log);
        assert forall|r: Round| round_consistent(#[trigger] next.at(r), all, r, params, vs) by {
            assert(next.at(r) == k.at(r));
        }
    }
}

/// What is reported for a vote was not reported before.
proof fn lemma_new_reports<Ctx: Context>(
    known: FastRoundView<Ctx>,
    log: Seq<(Round, Output<Ctx::ValueId>)>,
    vote: SignedVote<Ctx>,
    params: FastThresholdParams,
    vs: Seq<Validator<Ctx>>,
    c: Crossed,
)
    requires
        round_consistent(known, log, vote.round, params, vs),
        c == (FastRoundView { votes: known.votes.push(vote), ..known }).crossed(vote.value, params, vs),
    ensures
        forall|o: Output<Ctx::ValueId>| #[trigger]
            reports(vote.value, c).contains(o) ==> !log.contains((vote.round, o)),
{
    assert forall|o: Output<Ctx::ValueId>| #[trigger] reports(vote.value, c).contains(o) implies !log.contains(
        (vote.round, o),
    ) by {
        lemma_reports(vote.value, c, o);
        match o {
            Output::VoteQuorumValue(v) => {
                assert(!known.vote_quorum.contains(v));
            },
            Output::DecisionQuorumValue(v) => {
                assert(!known.decision_quorum.contains(v));
            },
            Output::QuorumAny => {},
        }
    }
}

proof fn lemma_consistent<Ctx: Context>(
    votes: Seq<SignedVote<Ctx>>,
    params: FastThresholdParams,
    vs: Seq<Validator<Ctx>>,
)
    requires
        standard(params),
    ensures
        consistent(after_votes(votes, params, vs).0, after_votes(votes, params, vs).1, params, vs),
    decreases votes.len(),
{
    if votes.len() > 0 {
        lemma_consistent(votes.drop_last(), params, vs);
        let (k, log) = after_votes(votes.drop_last(), params, vs);
        lemma_step(k, log, votes.last(), params, vs);
    }
}

/// Whatever votes a new keeper was given, with the thresholds of the protocol: it
/// reported nothing twice for a round, it reported at most one value of a round
/// as decided, and that value was reported as valid before, and `n - f` votes for
/// anything were reported by then. This holds after every call.
pub proof fn law_fast_reports_of_a_round<Ctx: Context>(
    votes: Seq<SignedVote<Ctx>>,
    params: FastThresholdParams,
    vs: Seq<Validator<Ctx>>,
    r: Round,
    v: Ctx::ValueId,
    w: Ctx::ValueId,
)
    requires
        standard(params),
        distinct_addresses(vs),
    ensures
        ({
            let log = after_votes(votes, params, vs).1;
            &&& log.no_duplicates()
            &&& log.contains((r, Output::DecisionQuorumValue(v))) && log.contains(
                (r, Output::DecisionQuorumValue(w)),
            ) ==> v == w
            &&& forall|i: int|
                0 <= i < log.len() && #[trigger] log[i] == (r, Output::DecisionQuorumValue(v))
                    ==> valid_before(log, r, v, i)
            &&& log.contains((r, Output::DecisionQuorumValue(v))) ==> log.contains(
                (r, Output::QuorumAny),
            )
        }),
{
    lemma_consistent(votes, params, vs);
    let (k, log) = after_votes(votes, params, vs);
    let known = k.at(r);
    assert(round_consistent(known, log, r, params, vs));
    if log.contains((r, Output::DecisionQuorumValue(v))) && log.contains(
        (r, Output::DecisionQuorumValue(w)),
    ) && v != w {
        assert(known.decision_quorum.contains(v));
        assert(known.decision_quorum.contains(w));
        lemma_two_backed(known.votes, NilOrVal::Val(v), NilOrVal::Val(w), vs);
        lemma_cast_bounded(known.votes, vs);
        lemma_standard(params, known.weight(NilOrVal::Val(v), vs), total_power(vs));
        lemma_standard(params, known.weight(NilOrVal::Val(w), vs), total_power(vs));
    }
}

} // verus!
