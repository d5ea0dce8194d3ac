//! What holds of the classic vote keeper over all the votes that it was given.

use vstd::prelude::*;

use crate::types::{
    lists, power_in, Context, NilOrVal, Round, SignedVote, ThresholdParams, Validator, VoteType,
    Weight,
};
use crate::votekeeper::keeper::{
    added, has_slot, is_slot, lemma_update_voters, meets, one_vote_each, slot, tally,
    tally_type, upgrades, voters, voters_for, voters_of_type, KeeperView, PerRound,
    RecordVoteError,
};
use crate::votekeeper::tally::{listed, Threshold};

verus! {

/// What a new keeper knows after `steps`: votes, each applied while in a round.
pub open spec fn after_votes<Ctx: Context>(
    steps: Seq<(SignedVote<Ctx>, Round)>,
    params: ThresholdParams,
    vs: Seq<Validator<Ctx>>,
) -> KeeperView<Ctx>
    decreases steps.len(),
{
    if steps.len() == 0 {
        KeeperView { rounds: Map::empty(), evidence: Map::empty() }
    } else {
        after_votes(steps.drop_last(), params, vs).apply(
            steps.last().0,
            steps.last().1,
            params,
            vs,
        ).0
    }
}

/// The votes of `steps`.
pub open spec fn votes_in<Ctx: Context>(steps: Seq<(SignedVote<Ctx>, Round)>) -> Seq<SignedVote<Ctx>> {
    steps.map_values(|s: (SignedVote<Ctx>, Round)| s.0)
}

/// Whether no two votes share round, type and validator.
pub open spec fn no_two_alike<Ctx: Context>(votes: Seq<SignedVote<Ctx>>) -> bool {
    forall|i: int, j: int|
        #![trigger votes[i], votes[j]]
        0 <= i < j < votes.len() ==> !(votes[i].round == votes[j].round && votes[i].vote_type
            == votes[j].vote_type && votes[i].validator_address == votes[j].validator_address)
}

/// Whether a vote is one of type `t` at `r`, for the value `v` if one is given.
spec fn is_for<Ctx: Context>(
    vote: SignedVote<Ctx>,
    r: Round,
    t: VoteType,
    v: Option<NilOrVal<Ctx::ValueId>>,
) -> bool {
    vote.round == r && vote.vote_type == t && (v matches Some(x) ==> vote.value == x)
}

/// The weight of the votes of type `t` at `r`, for the value `v` if one is given.
spec fn counted<Ctx: Context>(
    votes: Seq<SignedVote<Ctx>>,
    r: Round,
    t: VoteType,
    v: Option<NilOrVal<Ctx::ValueId>>,
    vs: Seq<Validator<Ctx>>,
) -> nat
    decreases votes.len(),
{
    if votes.len() == 0 {
        0
    } else {
        counted(votes.drop_last(), r, t, v, vs) + if is_for(votes.last(), r, t, v) {
            power_in(vs, votes.last().validator_address)
        } else {
            0
        }
    }
}

proof fn lemma_counted_remove<Ctx: Context>(
    votes: Seq<SignedVote<Ctx>>,
    r: Round,
    t: VoteType,
    v: Option<NilOrVal<Ctx::ValueId>>,
    vs: Seq<Validator<Ctx>>,
    i: int,
)
    requires
        0 <= i < votes.len(),
    ensures
        counted(votes, r, t, v, vs) == counted(votes.remove(i), r, t, v, vs) + if is_for(
            votes[i],
            r,
            t,
            v,
        ) {
            power_in(vs, votes[i].validator_address)
        } else {
            0
        },
    decreases votes.len(),
{
    if i == votes.len() - 1 {
        assert(votes.remove(i) =~= votes.drop_last());
    } else {
        lemma_counted_remove(votes.drop_last(), r, t, v, vs, i);
        assert(votes.remove(i).drop_last() =~= votes.drop_last().remove(i));
        assert(votes.remove(i).last() == votes.last());
    }
}

/// The weight does not depend on the order of the votes.
proof fn lemma_counted_order<Ctx: Context>(
    a: Seq<SignedVote<Ctx>>,
    b: Seq<SignedVote<Ctx>>,
    r: Round,
    t: VoteType,
    v: Option<NilOrVal<Ctx::ValueId>>,
    vs: Seq<Validator<Ctx>>,
)
    requires
        a.to_multiset() == b.to_multiset(),
    ensures
        counted(a, r, t, v, vs) == counted(b, r, t, v, vs),
    decreases a.len(),
{
    a.to_multiset_ensures();
    b.to_multiset_ensures();
    if a.len() > 0 {
        let x = a.last();
        assert(a.contains(x));
        assert(a.to_multiset().count(x) > 0);
        assert(b.contains(x));
        let i = choose|i: int| 0 <= i < b.len() && b[i] == x;
        assert(a.drop_last() =~= a.remove(a.len() - 1));
        assert(a.drop_last().to_multiset() =~= b.remove(i).to_multiset());
        lemma_counted_order(a.drop_last(), b.remove(i), r, t, v, vs);
        lemma_counted_remove(b, r, t, v, vs, i);
    }
}

/// The round of one of the steps.
spec fn is_step_at<Ctx: Context>(steps: Seq<(SignedVote<Ctx>, Round)>, i: int, r: Round) -> bool {
    0 <= i < steps.len() && steps[i].0.round == r
}

/// What a keeper holds of a round is what it was given, where no two votes are
/// alike.
proof fn lemma_after_votes<Ctx: Context>(
    steps: Seq<(SignedVote<Ctx>, Round)>,
    r: Round,
    t: VoteType,
    v: NilOrVal<Ctx::ValueId>,
    params: ThresholdParams,
    vs: Seq<Validator<Ctx>>,
)
    requires
        no_two_alike(votes_in(steps)),
    ensures
        ({
            let known = after_votes(steps, params, vs);
            let received = known.at(r).received;
            &&& known.rounds.contains_key(r) == exists|i: int| is_step_at(steps, i, r)
            &&& forall|u: VoteType, a: Ctx::Address| #[trigger]
                has_slot(received, u, a) ==> exists|i: int| #[trigger]
                    is_step_at(steps, i, r) && is_slot(steps[i].0, u, a)
            &&& tally(received, t, v, vs) == counted(votes_in(steps), r, t, Some(v), vs)
            &&& tally_type(received, t, vs) == counted(votes_in(steps), r, t, None, vs)
        }),
    decreases steps.len(),
{
    let known = after_votes(steps, params, vs);
    let received = known.at(r).received;
    if steps.len() == 0 {
        assert(received =~= Seq::<SignedVote<Ctx>>::empty());
        assert(votes_in(steps) =~= Seq::<SignedVote<Ctx>>::empty());
    } else {
        let rest = steps.drop_last();
        let vote = steps.last().0;
        let votes = votes_in(steps);
        let fewer = votes_in(rest);
        let a = vote.validator_address;
        assert(votes.drop_last() =~= fewer);
        assert(votes.last() == vote);
        assert forall|i: int, j: int|
            #![trigger fewer[i], fewer[j]]
            0 <= i < j < fewer.len() implies !(fewer[i].round == fewer[j].round && fewer[i].vote_type
            == fewer[j].vote_type && fewer[i].validator_address == fewer[j].validator_address) by {
            assert(fewer[i] == votes[i] && fewer[j] == votes[j]);
        }
        lemma_after_votes(rest, r, t, v, params, vs);
        let held = after_votes(rest, params, vs).at(r).received;
        assert forall|i: int| is_step_at(rest, i, r) implies is_step_at(steps, i, r) by {}
        assert forall|i: int| is_step_at(steps, i, r) && i != steps.len() - 1 implies is_step_at(
            rest,
            i,
            r,
        ) by {}
        assert(vote.round == r ==> is_step_at(steps, steps.len() - 1, r));
        if vote.round == r {
            if has_slot(held, vote.vote_type, a) {
                let i = choose|i: int| #[trigger]
                    is_step_at(rest, i, r) && is_slot(rest[i].0, vote.vote_type, a);
                assert(votes[i] == rest[i].0);
                assert(votes[steps.len() - 1] == vote);
            }
            if lists(vs, a) {
                assert(received == held.push(vote));
                assert(received.drop_last() =~= held);
                let s = voters_for(held, t, v);
                assert(s.push(a).drop_last() =~= s);
                let q = voters_of_type(held, t);
                assert(q.push(a).drop_last() =~= q);
            } else {
                assert(received == held);
            }
        } else {
            assert(received == held);
        }
        assert forall|u: VoteType, b: Ctx::Address| #[trigger] has_slot(received, u, b) implies exists|
            i: int,
        | #[trigger] is_step_at(steps, i, r) && is_slot(steps[i].0, u, b) by {
            let k = slot(received, u, b);
            assert(is_slot(received[k], u, b));
            if k < held.len() {
                assert(is_slot(held[k], u, b));
                assert(has_slot(held, u, b));
                let i = choose|i: int| #[trigger] is_step_at(rest, i, r) && is_slot(rest[i].0, u, b);
                assert(is_step_at(steps, i, r) && is_slot(steps[i].0, u, b));
            } else {
                assert(is_step_at(steps, steps.len() - 1, r) && is_slot(
                    steps[steps.len() - 1].0,
                    u,
                    b,
                ));
            }
        }
    }
}

/// Quorums do not depend on the order in which votes arrive, nor on the rounds
/// that the node was in: two new keepers that were given the same votes, no two
/// of which share round, type and validator, meet the same thresholds.
pub proof fn law_quorums_do_not_depend_on_order<Ctx: Context>(
    one: Seq<(SignedVote<Ctx>, Round)>,
    other: Seq<(SignedVote<Ctx>, Round)>,
    r: Round,
    t: VoteType,
    threshold: Threshold<Ctx::ValueId>,
    params: ThresholdParams,
    vs: Seq<Validator<Ctx>>,
)
    requires
        no_two_alike(votes_in(one)),
        votes_in(one).to_multiset() == votes_in(other).to_multiset(),
    ensures
        ({
            let a = after_votes(one, params, vs).rounds;
            let b = after_votes(other, params, vs).rounds;
            (a.contains_key(r) && meets(a[r].received, t, threshold, params, vs)) == (b.contains_key(r)
                && meets(b[r].received, t, threshold, params, vs))
        }),
{
    let v = match threshold {
        Threshold::Value(x) => NilOrVal::Val(x),
        _ => NilOrVal::Nil,
    };
    let a = votes_in(one);
    let b = votes_in(other);
    lemma_alike_order(a, b);
    lemma_after_votes(one, r, t, v, params, vs);
    lemma_after_votes(other, r, t, v, params, vs);
    lemma_counted_order(a, b, r, t, Some(v), vs);
    lemma_counted_order(a, b, r, t, None, vs);
    if exists|i: int| is_step_at(one, i, r) {
        lemma_steps_order(one, other, r);
    }
    if exists|i: int| is_step_at(other, i, r) {
        lemma_steps_order(other, one, r);
    }
}

/// The same votes are at the same rounds.
proof fn lemma_steps_order<Ctx: Context>(
    one: Seq<(SignedVote<Ctx>, Round)>,
    other: Seq<(SignedVote<Ctx>, Round)>,
    r: Round,
)
    requires
        votes_in(one).to_multiset() == votes_in(other).to_multiset(),
        exists|i: int| is_step_at(one, i, r),
    ensures
        exists|i: int| is_step_at(other, i, r),
{
    let a = votes_in(one);
    let b = votes_in(other);
    let i = choose|i: int| is_step_at(one, i, r);
    a.to_multiset_ensures();
    b.to_multiset_ensures();
    assert(a[i] == one[i].0);
    assert(a.contains(a[i]));
    assert(a.to_multiset().count(a[i]) > 0);
    assert(b.contains(a[i]));
    let j = choose|j: int| 0 <= j < b.len() && b[j] == a[i];
    assert(b[j] == other[j].0);
    assert(is_step_at(other, j, r));
}

/// Whether no two votes are alike does not depend on their order.
proof fn lemma_alike_order<Ctx: Context>(a: Seq<SignedVote<Ctx>>, b: Seq<SignedVote<Ctx>>)
    requires
        no_two_alike(a),
        a.to_multiset() == b.to_multiset(),
    ensures
        no_two_alike(b),
{
    a.to_multiset_ensures();
    b.to_multiset_ensures();
    assert forall|i: int, j: int|
        #![trigger b[i], b[j]]
        0 <= i < j < b.len() implies !(b[i].round == b[j].round && b[i].vote_type == b[j].vote_type
        && b[i].validator_address == b[j].validator_address) by {
        let x = b[i];
        let y = b[j];
        assert(b.contains(x));
        assert(b.to_multiset().count(x) > 0);
        assert(a.contains(x));
        let p = choose|p: int| 0 <= p < a.len() && a[p] == x;
        let s = a.remove(p);
        let u = b.remove(i);
        s.to_multiset_ensures();
        u.to_multiset_ensures();
        assert(u[j - 1] == y);
        assert(u.contains(y));
        assert(s.to_multiset() == u.to_multiset());
        assert(s.to_multiset().count(y) > 0);
        assert(s.contains(y));
        let k = choose|k: int| 0 <= k < s.len() && s[k] == y;
        let q = if k < p { k } else { k + 1 };
        assert(a[q] == y);
        assert(p != q);
    }
}

/// The weights of `addrs` together.
pub open spec fn sum_of<A>(addrs: Seq<A>, weight: spec_fn(A) -> Weight) -> nat
    decreases addrs.len(),
{
    if addrs.len() == 0 {
        0
    } else {
        sum_of(addrs.drop_last(), weight) + weight(addrs.last()) as nat
    }
}

/// Whether a round holds at most one vote of each type from a validator, and its
/// tallies are the weights of the votes that it holds: of each type, of each type
/// and value, and of the validators, each once.
pub open spec fn weighs_votes<Ctx: Context>(
    p: PerRound<Ctx>,
    weight: spec_fn(Ctx::Address) -> Weight,
) -> bool {
    let votes = p.received_votes@;
    &&& one_vote_each(votes)
    &&& forall|t: VoteType| #[trigger] p.votes.total(t) == sum_of(voters_of_type(votes, t), weight)
    &&& forall|t: VoteType, v: NilOrVal<Ctx::ValueId>| #[trigger]
        p.votes.weight(t, v) == sum_of(voters_for(votes, t, v), weight)
    &&& p.addresses_weights.total() == sum_of(voters(votes), weight)
}

/// The validators with a weight are those that voted.
spec fn weighs_voters<Ctx: Context>(p: PerRound<Ctx>) -> bool {
    p.addresses_weights.weights@.map_values(|e: (Ctx::Address, Weight)| e.0) == voters(
        p.received_votes@,
    )
}

/// Adding a vote keeps the tallies.
proof fn lemma_added_weighs<Ctx: Context>(
    before: PerRound<Ctx>,
    after: PerRound<Ctx>,
    vote: SignedVote<Ctx>,
    weight: spec_fn(Ctx::Address) -> Weight,
    r: Result<(), RecordVoteError<Ctx>>,
)
    requires
        weighs_votes(before, weight),
        weighs_voters(before),
        added(before, after, vote, weight(vote.validator_address), r),
    ensures
        weighs_votes(after, weight),
        weighs_voters(after),
{
    let held = before.received_votes@;
    let votes = after.received_votes@;
    let u = vote.vote_type;
    let a = vote.validator_address;
    if r is Ok {
        if has_slot(held, u, a) {
            let k = slot(held, u, a);
            assert(is_slot(held[k], u, a));
            assert forall|t: VoteType| #[trigger] after.votes.total(t) == sum_of(
                voters_of_type(votes, t),
                weight,
            ) by {
                if upgrades(held[k], vote) {
                    lemma_update_voters(held, k, vote, t, vote.value);
                }
                assert(before.votes.total(t) == sum_of(voters_of_type(held, t), weight));
            }
            assert forall|t: VoteType, v: NilOrVal<Ctx::ValueId>| #[trigger] after.votes.weight(t, v)
                == sum_of(voters_for(votes, t, v), weight) by {
                if upgrades(held[k], vote) {
                    lemma_update_voters(held, k, vote, t, v);
                }
                assert(before.votes.weight(t, v) == sum_of(voters_for(held, t, v), weight));
            }
            if upgrades(held[k], vote) {
                lemma_update_voters(held, k, vote, u, vote.value);
            }
        } else {
            assert(votes == held.push(vote));
            assert(votes.drop_last() =~= held);
            assert forall|t: VoteType| #[trigger] after.votes.total(t) == sum_of(
                voters_of_type(votes, t),
                weight,
            ) by {
                let s = voters_of_type(held, t);
                assert(s.push(a).drop_last() =~= s);
                assert(before.votes.total(t) == sum_of(s, weight));
                assert(t != u ==> after.votes.count(t) == before.votes.count(t));
            }
            assert forall|t: VoteType, v: NilOrVal<Ctx::ValueId>| #[trigger] after.votes.weight(t, v)
                == sum_of(voters_for(votes, t, v), weight) by {
                let s = voters_for(held, t, v);
                assert(s.push(a).drop_last() =~= s);
                assert(before.votes.weight(t, v) == sum_of(s, weight));
                assert(t != u ==> after.votes.count(t) == before.votes.count(t));
            }
            let ws = before.addresses_weights.weights@;
            let key = |e: (Ctx::Address, Weight)| e.0;
            let names = voters(held);
            assert(ws.map_values(key) == names);
            assert(listed(ws, a) == names.contains(a)) by {
                if listed(ws, a) {
                    let i = choose|i: int| 0 <= i < ws.len() && (#[trigger] ws[i]).0 == a;
                    assert(names[i] == a);
                }
                if names.contains(a) {
                    let i = choose|i: int| 0 <= i < names.len() && names[i] == a;
                    assert(ws[i].0 == a);
                }
            }
            assert(ws.push((a, weight(a))).drop_last() =~= ws);
            assert(ws.push((a, weight(a))).map_values(key) =~= names.push(a));
            assert(names.push(a).drop_last() =~= names);
        }
    }
}

proof fn lemma_adds_weigh<Ctx: Context>(
    rounds: Seq<PerRound<Ctx>>,
    votes: Seq<SignedVote<Ctx>>,
    results: Seq<Result<(), RecordVoteError<Ctx>>>,
    weight: spec_fn(Ctx::Address) -> Weight,
    n: int,
)
    requires
        0 <= n <= votes.len(),
        rounds.len() == votes.len() + 1,
        results.len() == votes.len(),
        rounds[0].is_fresh(),
        forall|i: int|
            #![trigger votes[i]]
            0 <= i < votes.len() ==> added(
                rounds[i],
                rounds[i + 1],
                votes[i],
                weight(votes[i].validator_address),
                results[i],
            ),
    ensures
        weighs_votes(rounds[n], weight),
        weighs_voters(rounds[n]),
    decreases n,
{
    if n == 0 {
        let p = rounds[0];
        assert(p.addresses_weights.weights@.map_values(|e: (Ctx::Address, Weight)| e.0)
            =~= Seq::<Ctx::Address>::empty());
    } else {
        lemma_adds_weigh(rounds, votes, results, weight, n - 1);
        let vote = votes[n - 1];
        lemma_added_weighs(rounds[n - 1], rounds[n], vote, weight, results[n - 1]);
    }
}

/// However votes are added to a new round, each at the weight of its validator,
/// the round holds at most one vote of each type from a validator, and its
/// tallies are the weights of the votes that it holds, each sender counted once
/// among the voters, whether it sent a prevote, a precommit or both. `rounds` is
/// the round before, between and after the additions.
pub proof fn law_tallies_are_those_of_the_votes<Ctx: Context>(
    rounds: Seq<PerRound<Ctx>>,
    votes: Seq<SignedVote<Ctx>>,
    results: Seq<Result<(), RecordVoteError<Ctx>>>,
    weight: spec_fn(Ctx::Address) -> Weight,
)
    requires
        rounds.len() == votes.len() + 1,
        results.len() == votes.len(),
        rounds[0].is_fresh(),
        forall|i: int|
            #![trigger votes[i]]
            0 <= i < votes.len() ==> added(
                rounds[i],
                rounds[i + 1],
                votes[i],
                weight(votes[i].validator_address),
                results[i],
            ),
    ensures
        forall|n: int| 0 <= n < rounds.len() ==> weighs_votes(#[trigger] rounds[n], weight),
{
    assert forall|n: int| 0 <= n < rounds.len() implies weighs_votes(#[trigger] rounds[n], weight) by {
        lemma_adds_weigh(rounds, votes, results, weight, n);
    }
}

} // verus!
