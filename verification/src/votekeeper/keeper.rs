//! The vote keeper of the classic protocol: tallies votes per round and emits
//! an output when a threshold is reached.

use vstd::prelude::*;

use crate::ident::{Ident, OrdMap, Ranked};
use crate::types::{
    distinct_addresses, exceeds, lemma_weight_bounded, lists, power_in, total_power, weight_of,
    Context, NilOrVal, Round, SignedVote, ThresholdParams, Validator, ValidatorSet, VoteType,
    Weight,
};
use crate::votekeeper::evidence::{with_evidence, DoubleVote, EvidenceMap};
use crate::votekeeper::tally::{listed, weighed_once, RoundVotes, RoundWeights, Threshold};

verus! {

/// What the vote keeper reports.
#[derive(Debug, PartialEq, Eq)]
pub enum Output<V> {
    /// A quorum of prevotes for some value or nil.
    PolkaAny,
    /// A quorum of prevotes for nil.
    PolkaNil,
    /// A quorum of prevotes for this value.
    PolkaValue(V),
    /// A quorum of precommits for some value or nil.
    PrecommitAny,
    /// A quorum of precommits for this value.
    PrecommitValue(V),
    /// Votes at this higher round that hold at least one honest vote.
    SkipRound(Round),
}

impl<V: Ident> Ident for Output<V> {
    fn same(&self, other: &Self) -> (r: bool) {
        match (self, other) {
            (Output::PolkaAny, Output::PolkaAny) => true,
            (Output::PolkaNil, Output::PolkaNil) => true,
            (Output::PolkaValue(a), Output::PolkaValue(b)) => a.same(b),
            (Output::PrecommitAny, Output::PrecommitAny) => true,
            (Output::PrecommitValue(a), Output::PrecommitValue(b)) => a.same(b),
            (Output::SkipRound(a), Output::SkipRound(b)) => a.same(b),
            _ => false,
        }
    }

    fn dup(&self) -> (r: Self) {
        match self {
            Output::PolkaAny => Output::PolkaAny,
            Output::PolkaNil => Output::PolkaNil,
            Output::PolkaValue(a) => Output::PolkaValue(a.dup()),
            Output::PrecommitAny => Output::PrecommitAny,
            Output::PrecommitValue(a) => Output::PrecommitValue(a.dup()),
            Output::SkipRound(a) => Output::SkipRound(a.dup()),
        }
    }
}

/// Whether `vote` is the vote of type `t` of the validator `a`.
pub open spec fn is_slot<Ctx: Context>(vote: SignedVote<Ctx>, t: VoteType, a: Ctx::Address) -> bool {
    vote.vote_type == t && vote.validator_address == a
}

/// Whether `votes` has a vote of type `t` of the validator `a`.
pub open spec fn has_slot<Ctx: Context>(votes: Seq<SignedVote<Ctx>>, t: VoteType, a: Ctx::Address) -> bool {
    exists|i: int| 0 <= i < votes.len() && is_slot(#[trigger] votes[i], t, a)
}

/// The index in `votes` of the vote of type `t` of the validator `a`.
pub open spec fn slot<Ctx: Context>(votes: Seq<SignedVote<Ctx>>, t: VoteType, a: Ctx::Address) -> int {
    choose|i: int| 0 <= i < votes.len() && is_slot(#[trigger] votes[i], t, a)
}

/// Whether every validator has at most one vote of each type in `votes`.
pub open spec fn one_vote_each<Ctx: Context>(votes: Seq<SignedVote<Ctx>>) -> bool {
    forall|i: int, j: int|
        #![trigger votes[i], votes[j]]
        0 <= i < j < votes.len() ==> !(votes[i].vote_type == votes[j].vote_type
            && votes[i].validator_address == votes[j].validator_address)
}

/// Whether `vote` contradicts what its validator voted before.
pub open spec fn conflicts<Ctx: Context>(votes: Seq<SignedVote<Ctx>>, vote: SignedVote<Ctx>) -> bool {
    has_slot(votes, vote.vote_type, vote.validator_address) && votes[slot(
        votes,
        vote.vote_type,
        vote.validator_address,
    )].value != vote.value
}

/// Whether `new` carries an extension that `stored` lacks.
pub open spec fn upgrades<Ctx: Context>(stored: SignedVote<Ctx>, new: SignedVote<Ctx>) -> bool {
    stored.extension is None && new.extension is Some
}

/// `votes` after `vote`, which does not conflict with them, was recorded: a
/// validator's first vote of a type is appended, a later one only replaces it
/// where it brings a missing extension.
pub open spec fn recorded<Ctx: Context>(votes: Seq<SignedVote<Ctx>>, vote: SignedVote<Ctx>) -> Seq<
    SignedVote<Ctx>,
> {
    let t = vote.vote_type;
    let a = vote.validator_address;
    if has_slot(votes, t, a) {
        if upgrades(votes[slot(votes, t, a)], vote) {
            votes.update(slot(votes, t, a), vote)
        } else {
            votes
        }
    } else {
        votes.push(vote)
    }
}

/// Whether `after` is `before` with `vote` counted at `weight`.
pub open spec fn counts_vote<Ctx: Context>(
    before: RoundVotes<Ctx>,
    after: RoundVotes<Ctx>,
    vote: SignedVote<Ctx>,
    weight: Weight,
) -> bool {
    let t = vote.vote_type;
    &&& forall|u: VoteType| u != t ==> #[trigger] after.count(u) == before.count(u)
    &&& after.count(t).validator_addresses@ == before.count(t).validator_addresses@.push(
        vote.validator_address,
    )
    &&& after.total(t) == before.total(t) + weight
    &&& forall|v: NilOrVal<Ctx::ValueId>| #[trigger]
        after.weight(t, v) == if v == vote.value {
            before.weight(t, v) + weight as nat
        } else {
            before.weight(t, v)
        }
}

/// Whether adding `vote` at `weight` to `before` gives `after` and the result
/// `r`: a vote that conflicts is refused, and any other is recorded, and counted
/// where it is the first of its type from its validator.
pub open spec fn added<Ctx: Context>(
    before: PerRound<Ctx>,
    after: PerRound<Ctx>,
    vote: SignedVote<Ctx>,
    weight: Weight,
    r: Result<(), RecordVoteError<Ctx>>,
) -> bool {
    let votes = before.received_votes@;
    let t = vote.vote_type;
    let a = vote.validator_address;
    &&& after.wf()
    &&& match r {
        Ok(()) => {
            &&& !conflicts(votes, vote)
            &&& after.received_votes@ == recorded(votes, vote)
            &&& after.emitted_outputs@ == before.emitted_outputs@
            &&& has_slot(votes, t, a) ==> {
                &&& after.votes == before.votes
                &&& after.addresses_weights == before.addresses_weights
            }
            &&& !has_slot(votes, t, a) ==> {
                &&& counts_vote(before.votes, after.votes, vote, weight)
                &&& after.addresses_weights.weights@ == weighed_once(
                    before.addresses_weights.weights@,
                    a,
                    weight,
                )
            }
        },
        Err(RecordVoteError::ConflictingVote { existing, conflicting }) => {
            &&& conflicts(votes, vote)
            &&& existing == votes[slot(votes, t, a)]
            &&& conflicting == vote
            &&& after == before
        },
    }
}

/// The votes and emitted outputs of one round.
pub struct PerRound<Ctx: Context> {
    /// The votes, tallied.
    pub votes: RoundVotes<Ctx>,
    /// The weight of each voter.
    pub addresses_weights: RoundWeights<Ctx::Address>,
    /// The votes, as received.
    pub received_votes: Vec<SignedVote<Ctx>>,
    /// The outputs emitted so far.
    pub emitted_outputs: Vec<Output<Ctx::ValueId>>,
}

/// Why a vote was not recorded.
pub enum RecordVoteError<Ctx: Context> {
    /// The validator voted for something else before.
    ConflictingVote {
        /// The vote already recorded.
        existing: SignedVote<Ctx>,
        /// The conflicting vote.
        conflicting: SignedVote<Ctx>,
    },
}

impl<Ctx: Context> PerRound<Ctx> {
    /// Votes are counted exactly when they are recorded, once per validator
    /// and type.
    pub open spec fn wf(self) -> bool {
        &&& self.votes.wf()
        &&& self.addresses_weights.wf()
        &&& one_vote_each(self.received_votes@)
        &&& forall|t: VoteType, a: Ctx::Address| #[trigger]
            self.votes.counted(t, a) == has_slot(self.received_votes@, t, a)
    }

    /// A round without votes.
    pub open spec fn is_fresh(self) -> bool {
        &&& self.wf()
        &&& self.received_votes@ == Seq::<SignedVote<Ctx>>::empty()
        &&& self.emitted_outputs@ == Seq::<Output<Ctx::ValueId>>::empty()
        &&& self.addresses_weights.weights@ == Seq::<(Ctx::Address, Weight)>::empty()
        &&& forall|t: VoteType| (#[trigger] self.votes.count(t)).validator_addresses@ == Seq::<
            Ctx::Address,
        >::empty()
        &&& forall|t: VoteType| #[trigger] self.votes.total(t) == 0
        &&& forall|t: VoteType, v: NilOrVal<Ctx::ValueId>| #[trigger] self.votes.weight(t, v) == 0
    }

    /// A round without votes.
    pub fn new() -> (r: Self)
        ensures
            r.is_fresh(),
    {
        Self::with_expected_number_of_votes(0)
    }

    /// A round without votes, with room for `num_votes` of them.
    pub fn with_expected_number_of_votes(num_votes: usize) -> (r: Self)
        ensures
            r.is_fresh(),
    {
        let r = PerRound {
            votes: RoundVotes::new(),
            addresses_weights: RoundWeights::new(),
            received_votes: Vec::with_capacity(num_votes),
            emitted_outputs: Vec::new(),
        };
        proof {
            assert(r.received_votes@ =~= Seq::<SignedVote<Ctx>>::empty());
            assert(r.emitted_outputs@ =~= Seq::<Output<Ctx::ValueId>>::empty());
            assert forall|t: VoteType| (#[trigger] r.votes.count(t)).validator_addresses@ == Seq::<
                Ctx::Address,
            >::empty() by {
                assert(r.votes.count(t).validator_addresses@ =~= Seq::<Ctx::Address>::empty());
            }
        }
        r
    }

    /// The index of the vote of type `vote_type` of the validator `address`.
    fn find_vote(&self, vote_type: VoteType, address: &Ctx::Address) -> (r: Option<usize>)
        requires
            one_vote_each(self.received_votes@),
        ensures
            match r {
                Some(i) => i < self.received_votes@.len() && has_slot(
                    self.received_votes@,
                    vote_type,
                    *address,
                ) && i == slot(self.received_votes@, vote_type, *address) && is_slot(
                    self.received_votes@[i as int],
                    vote_type,
                    *address,
                ),
                None => !has_slot(self.received_votes@, vote_type, *address),
            },
    {
        let mut i: usize = 0;
        while i < self.received_votes.len()
            invariant
                one_vote_each(self.received_votes@),
                i <= self.received_votes@.len(),
                forall|j: int|
                    0 <= j < i ==> !is_slot(#[trigger] self.received_votes@[j], vote_type, *address),
            decreases self.received_votes@.len() - i,
        {
            let vote = &self.received_votes[i];
            if vote.vote_type == vote_type && vote.validator_address.same(address) {
                proof {
                    assert(is_slot(self.received_votes@[i as int], vote_type, *address));
                    let k = slot(self.received_votes@, vote_type, *address);
                    assert(is_slot(self.received_votes@[k], vote_type, *address));
                    assert(k == i);
                }
                return Some(i);
            }
            i = i + 1;
        }
        None
    }

    /// Record `vote`, counting it at `weight` where it is the first of its
    /// type from its validator.
    pub fn add(&mut self, vote: SignedVote<Ctx>, weight: Weight) -> (r: Result<(), RecordVoteError<Ctx>>)
        requires
            old(self).wf(),
            !has_slot(old(self).received_votes@, vote.vote_type, vote.validator_address) ==> old(
                self,
            ).votes.total(vote.vote_type) + weight <= u64::MAX,
        ensures
            added(*old(self), *final(self), vote, weight, r),
    {
        let ghost before = *self;
        let ghost t = vote.vote_type;
        let ghost a = vote.validator_address;
        match self.find_vote(vote.vote_type, &vote.validator_address) {
            Some(idx) => {
                let existing = &self.received_votes[idx];
                if !existing.value.same(&vote.value) {
                    return Err(
                        RecordVoteError::ConflictingVote {
                            existing: existing.dup(),
                            conflicting: vote,
                        },
                    );
                }
                if existing.extension.is_none() && vote.extension.is_some() {
                    self.received_votes.set(idx, vote);
                    proof {
                        assert(is_slot(self.received_votes@[idx as int], t, a));
                        lemma_update_slots(before.received_votes@, idx as int, vote);
                        assert(one_vote_each(self.received_votes@)) by {
                            assert forall|i: int, j: int|
                                #![trigger self.received_votes@[i], self.received_votes@[j]]
                                0 <= i < j < self.received_votes@.len() implies !(
                            self.received_votes@[i].vote_type == self.received_votes@[j].vote_type
                                && self.received_votes@[i].validator_address
                                == self.received_votes@[j].validator_address) by {
                                let x = before.received_votes@[i];
                                let y = before.received_votes@[j];
                                assert(!(x.vote_type == y.vote_type && x.validator_address
                                    == y.validator_address));
                            }
                        }
                    }
                }
                Ok(())
            },
            None => {
                assert(!before.votes.counted(t, a));
                self.votes.add_vote(&vote, weight);
                self.addresses_weights.set_once(&vote.validator_address, weight);
                self.received_votes.push(vote);
                proof {
                    let votes = self.received_votes@;
                    assert forall|i: int, j: int|
                        #![trigger votes[i], votes[j]]
                        0 <= i < j < votes.len() implies !(votes[i].vote_type == votes[j].vote_type
                        && votes[i].validator_address == votes[j].validator_address) by {
                        let x = before.received_votes@[i];
                        if j < before.received_votes@.len() {
                            let y = before.received_votes@[j];
                            assert(!(x.vote_type == y.vote_type && x.validator_address
                                == y.validator_address));
                        } else {
                            assert(!is_slot(x, t, a));
                        }
                    }
                    assert forall|u: VoteType, b: Ctx::Address| #[trigger]
                        self.votes.counted(u, b) == has_slot(votes, u, b) by {
                        lemma_push_slot(before.received_votes@, vote, u, b);
                        assert(before.votes.counted(u, b) == has_slot(before.received_votes@, u, b));
                        if u == t {
                            let s = before.votes.count(t).validator_addresses@;
                            assert(self.votes.count(t).validator_addresses@ == s.push(a));
                            if s.contains(b) {
                                let k = choose|k: int| 0 <= k < s.len() && s[k] == b;
                                assert(s.push(a)[k] == b);
                            }
                            if b == a {
                                assert(s.push(a)[s.len() as int] == b);
                            }
                            if s.push(a).contains(b) && b != a {
                                let k = choose|k: int| 0 <= k < s.push(a).len() && s.push(a)[k] == b;
                                assert(s[k] == b);
                            }
                        } else {
                            assert(self.votes.count(u) == before.votes.count(u));
                        }
                    }
                }
                Ok(())
            },
        }
    }

    /// The vote of type `vote_type` of the validator `address`.
    pub fn get_vote(&self, vote_type: VoteType, address: &Ctx::Address) -> (r: Option<&SignedVote<Ctx>>)
        requires
            self.wf(),
        ensures
            match r {
                Some(v) => has_slot(self.received_votes@, vote_type, *address) && *v
                    == self.received_votes@[slot(self.received_votes@, vote_type, *address)],
                None => !has_slot(self.received_votes@, vote_type, *address),
            },
    {
        match self.find_vote(vote_type, address) {
            Some(i) => Some(&self.received_votes[i]),
            None => None,
        }
    }

    /// The votes of this round, tallied.
    pub fn votes(&self) -> (r: &RoundVotes<Ctx>)
        ensures
            *r == self.votes,
    {
        &self.votes
    }

    /// The votes of this round, as received.
    pub fn received_votes(&self) -> (r: &Vec<SignedVote<Ctx>>)
        ensures
            *r == self.received_votes,
    {
        &self.received_votes
    }

    /// The precommits for `value_id` in this round, in the order received.
    pub fn precommits_for_value(&self, value_id: &Ctx::ValueId) -> (r: Vec<SignedVote<Ctx>>)
        ensures
            r@ == precommits_for(self.received_votes@, *value_id),
    {
        let mut out: Vec<SignedVote<Ctx>> = Vec::new();
        let mut i: usize = 0;
        assert(self.received_votes@.subrange(0, 0) =~= Seq::<SignedVote<Ctx>>::empty());
        assert(out@ =~= Seq::<SignedVote<Ctx>>::empty());
        while i < self.received_votes.len()
            invariant
                i <= self.received_votes@.len(),
                out@ == precommits_for(self.received_votes@.subrange(0, i as int), *value_id),
            decreases self.received_votes@.len() - i,
        {
            let vote = &self.received_votes[i];
            proof {
                let next = self.received_votes@.subrange(0, i + 1);
                assert(next.drop_last() =~= self.received_votes@.subrange(0, i as int));
                assert(next.last() == *vote);
            }
            let matches = match &vote.value {
                NilOrVal::Val(v) => v.same(value_id),
                NilOrVal::Nil => false,
            };
            if vote.vote_type == VoteType::Precommit && matches {
                out.push(vote.dup());
            }
            i = i + 1;
        }
        assert(self.received_votes@.subrange(0, i as int) =~= self.received_votes@);
        out
    }

    /// The weight of each voter of this round.
    pub fn addresses_weights(&self) -> (r: &RoundWeights<Ctx::Address>)
        ensures
            *r == self.addresses_weights,
    {
        &self.addresses_weights
    }

    /// The outputs emitted so far for this round.
    pub fn emitted_outputs(&self) -> (r: &Vec<Output<Ctx::ValueId>>)
        ensures
            *r == self.emitted_outputs,
    {
        &self.emitted_outputs
    }
}

/// The precommits for `v` among `votes`, in order.
pub open spec fn precommits_for<Ctx: Context>(votes: Seq<SignedVote<Ctx>>, v: Ctx::ValueId) -> Seq<
    SignedVote<Ctx>,
>
    decreases votes.len(),
{
    if votes.len() == 0 {
        Seq::empty()
    } else {
        let rest = precommits_for(votes.drop_last(), v);
        let last = votes.last();
        if last.vote_type == VoteType::Precommit && last.value == NilOrVal::Val(v) {
            rest.push(last)
        } else {
            rest
        }
    }
}

/// Replacing a vote by one of the same validator and type keeps the slots.
proof fn lemma_update_slots<Ctx: Context>(votes: Seq<SignedVote<Ctx>>, i: int, vote: SignedVote<Ctx>)
    requires
        0 <= i < votes.len(),
        is_slot(votes[i], vote.vote_type, vote.validator_address),
    ensures
        forall|t: VoteType, a: Ctx::Address| #[trigger]
            has_slot(votes.update(i, vote), t, a) == has_slot(votes, t, a),
{
    let after = votes.update(i, vote);
    assert forall|t: VoteType, a: Ctx::Address| #[trigger] has_slot(after, t, a) == has_slot(votes, t, a) by {
        if has_slot(votes, t, a) {
            let k = slot(votes, t, a);
            assert(is_slot(after[k], t, a));
        }
        if has_slot(after, t, a) {
            let k = slot(after, t, a);
            assert(is_slot(votes[k], t, a));
        }
    }
}

/// Appending a vote adds its slot and no other.
proof fn lemma_push_slot<Ctx: Context>(
    votes: Seq<SignedVote<Ctx>>,
    vote: SignedVote<Ctx>,
    t: VoteType,
    a: Ctx::Address,
)
    ensures
        has_slot(votes.push(vote), t, a) == (has_slot(votes, t, a) || is_slot(vote, t, a)),
{
    let after = votes.push(vote);
    if has_slot(votes, t, a) {
        let k = slot(votes, t, a);
        assert(is_slot(after[k], t, a));
    }
    if is_slot(vote, t, a) {
        assert(is_slot(after[votes.len() as int], t, a));
    }
    if has_slot(after, t, a) {
        let k = slot(after, t, a);
        if k < votes.len() {
            assert(is_slot(votes[k], t, a));
        }
    }
}


/// The validators with a vote of type `t` among `votes`, in order.
pub open spec fn voters_of_type<Ctx: Context>(votes: Seq<SignedVote<Ctx>>, t: VoteType) -> Seq<Ctx::Address>
    decreases votes.len(),
{
    if votes.len() == 0 {
        Seq::empty()
    } else {
        let rest = voters_of_type(votes.drop_last(), t);
        if votes.last().vote_type == t {
            rest.push(votes.last().validator_address)
        } else {
            rest
        }
    }
}

/// The validators with a vote of type `t` for `v` among `votes`, in order.
pub open spec fn voters_for<Ctx: Context>(
    votes: Seq<SignedVote<Ctx>>,
    t: VoteType,
    v: NilOrVal<Ctx::ValueId>,
) -> Seq<Ctx::Address>
    decreases votes.len(),
{
    if votes.len() == 0 {
        Seq::empty()
    } else {
        let rest = voters_for(votes.drop_last(), t, v);
        if votes.last().vote_type == t && votes.last().value == v {
            rest.push(votes.last().validator_address)
        } else {
            rest
        }
    }
}

/// The validators with any vote among `votes`, each once, in order.
pub open spec fn voters<Ctx: Context>(votes: Seq<SignedVote<Ctx>>) -> Seq<Ctx::Address>
    decreases votes.len(),
{
    if votes.len() == 0 {
        Seq::empty()
    } else {
        let rest = voters(votes.drop_last());
        if rest.contains(votes.last().validator_address) {
            rest
        } else {
            rest.push(votes.last().validator_address)
        }
    }
}

/// The weight of the votes of type `t` for `v`.
pub open spec fn tally<Ctx: Context>(
    votes: Seq<SignedVote<Ctx>>,
    t: VoteType,
    v: NilOrVal<Ctx::ValueId>,
    vs: Seq<Validator<Ctx>>,
) -> nat {
    weight_of::<Ctx>(voters_for(votes, t, v), vs)
}

/// The weight of all votes of type `t`.
pub open spec fn tally_type<Ctx: Context>(
    votes: Seq<SignedVote<Ctx>>,
    t: VoteType,
    vs: Seq<Validator<Ctx>>,
) -> nat {
    weight_of::<Ctx>(voters_of_type(votes, t), vs)
}

/// The weight of all validators that voted.
pub open spec fn tally_voters<Ctx: Context>(votes: Seq<SignedVote<Ctx>>, vs: Seq<Validator<Ctx>>) -> nat {
    weight_of::<Ctx>(voters(votes), vs)
}

proof fn lemma_voters_of_type_slots<Ctx: Context>(votes: Seq<SignedVote<Ctx>>, t: VoteType, a: Ctx::Address)
    ensures
        voters_of_type(votes, t).contains(a) == has_slot(votes, t, a),
    decreases votes.len(),
{
    if votes.len() > 0 {
        let rest = votes.drop_last();
        lemma_voters_of_type_slots(rest, t, a);
        assert(votes =~= rest.push(votes.last()));
        lemma_push_slot(rest, votes.last(), t, a);
        lemma_push_contains(voters_of_type(rest, t), votes.last().validator_address, a);
    }
}

proof fn lemma_voters_for_slots<Ctx: Context>(
    votes: Seq<SignedVote<Ctx>>,
    t: VoteType,
    v: NilOrVal<Ctx::ValueId>,
    a: Ctx::Address,
)
    ensures
        voters_for(votes, t, v).contains(a) ==> has_slot(votes, t, a),
    decreases votes.len(),
{
    if votes.len() > 0 {
        let rest = votes.drop_last();
        lemma_voters_for_slots(rest, t, v, a);
        assert(votes =~= rest.push(votes.last()));
        lemma_push_slot(rest, votes.last(), t, a);
        lemma_push_contains(voters_for(rest, t, v), votes.last().validator_address, a);
    }
}

/// A longer list holds what the shorter one does, and the new item.
pub proof fn lemma_push_contains<A>(s: Seq<A>, x: A, a: A)
    ensures
        s.push(x).contains(a) == (s.contains(a) || x == a),
{
    if s.contains(a) {
        let k = choose|k: int| 0 <= k < s.len() && s[k] == a;
        assert(s.push(x)[k] == a);
    }
    assert(s.push(x)[s.len() as int] == x);
    if s.push(x).contains(a) && x != a {
        let k = choose|k: int| 0 <= k < s.push(x).len() && s.push(x)[k] == a;
        assert(s[k] == a);
    }
}

proof fn lemma_one_vote_each_prefix<Ctx: Context>(votes: Seq<SignedVote<Ctx>>)
    requires
        one_vote_each(votes),
        votes.len() > 0,
    ensures
        one_vote_each(votes.drop_last()),
        !has_slot(votes.drop_last(), votes.last().vote_type, votes.last().validator_address),
{
    let rest = votes.drop_last();
    assert forall|i: int, j: int|
        #![trigger rest[i], rest[j]]
        0 <= i < j < rest.len() implies !(rest[i].vote_type == rest[j].vote_type
        && rest[i].validator_address == rest[j].validator_address) by {
        assert(rest[i] == votes[i] && rest[j] == votes[j]);
    }
    assert forall|i: int| 0 <= i < rest.len() implies !is_slot(
        #[trigger] rest[i],
        votes.last().vote_type,
        votes.last().validator_address,
    ) by {
        assert(rest[i] == votes[i]);
        assert(votes.last() == votes[votes.len() - 1]);
    }
}

proof fn lemma_voters_distinct<Ctx: Context>(
    votes: Seq<SignedVote<Ctx>>,
    t: VoteType,
    v: NilOrVal<Ctx::ValueId>,
)
    requires
        one_vote_each(votes),
    ensures
        voters_of_type(votes, t).no_duplicates(),
        voters_for(votes, t, v).no_duplicates(),
    decreases votes.len(),
{
    if votes.len() > 0 {
        let rest = votes.drop_last();
        lemma_one_vote_each_prefix(votes);
        lemma_voters_distinct(rest, t, v);
        lemma_voters_of_type_slots(rest, t, votes.last().validator_address);
        lemma_voters_for_slots(rest, t, v, votes.last().validator_address);
    }
}

proof fn lemma_all_voters_distinct<Ctx: Context>(votes: Seq<SignedVote<Ctx>>)
    ensures
        voters(votes).no_duplicates(),
    decreases votes.len(),
{
    if votes.len() > 0 {
        lemma_all_voters_distinct(votes.drop_last());
    }
}

/// Every tally of a round is at most the total voting power.
pub proof fn lemma_tallies_bounded<Ctx: Context>(
    votes: Seq<SignedVote<Ctx>>,
    t: VoteType,
    v: NilOrVal<Ctx::ValueId>,
    vs: Seq<Validator<Ctx>>,
)
    requires
        one_vote_each(votes),
        distinct_addresses(vs),
    ensures
        tally(votes, t, v, vs) <= total_power(vs),
        tally_type(votes, t, vs) <= total_power(vs),
        tally_voters(votes, vs) <= total_power(vs),
{
    lemma_voters_distinct(votes, t, v);
    lemma_all_voters_distinct(votes);
    lemma_weight_bounded::<Ctx>(voters_for(votes, t, v), vs);
    lemma_weight_bounded::<Ctx>(voters_of_type(votes, t), vs);
    lemma_weight_bounded::<Ctx>(voters(votes), vs);
}

/// Replacing a vote by one that differs in its extension only keeps the tallies.
pub proof fn lemma_update_voters<Ctx: Context>(
    votes: Seq<SignedVote<Ctx>>,
    i: int,
    vote: SignedVote<Ctx>,
    t: VoteType,
    v: NilOrVal<Ctx::ValueId>,
)
    requires
        0 <= i < votes.len(),
        is_slot(votes[i], vote.vote_type, vote.validator_address),
        votes[i].value == vote.value,
    ensures
        voters_of_type(votes.update(i, vote), t) == voters_of_type(votes, t),
        voters_for(votes.update(i, vote), t, v) == voters_for(votes, t, v),
        voters(votes.update(i, vote)) == voters(votes),
    decreases votes.len(),
{
    let after = votes.update(i, vote);
    if i == votes.len() - 1 {
        assert(after.drop_last() =~= votes.drop_last());
    } else {
        lemma_update_voters(votes.drop_last(), i, vote, t, v);
        assert(after.drop_last() =~= votes.drop_last().update(i, vote));
    }
}

/// What a vote keeper knows of one round.
pub struct RoundView<Ctx: Context> {
    /// The recorded votes.
    pub received: Seq<SignedVote<Ctx>>,
    /// The outputs emitted so far.
    pub emitted: Seq<Output<Ctx::ValueId>>,
}

/// What a vote keeper knows.
#[verifier::reject_recursive_types(Ctx)]
pub struct KeeperView<Ctx: Context> {
    /// The rounds with votes.
    pub rounds: Map<Round, RoundView<Ctx>>,
    /// The recorded equivocations.
    pub evidence: Map<Ctx::Address, Seq<DoubleVote<Ctx>>>,
}

/// The threshold that the votes of type `t` reach, seen from `value`.
pub open spec fn threshold_reached<Ctx: Context>(
    votes: Seq<SignedVote<Ctx>>,
    t: VoteType,
    value: NilOrVal<Ctx::ValueId>,
    params: ThresholdParams,
    vs: Seq<Validator<Ctx>>,
) -> Threshold<Ctx::ValueId> {
    let total = total_power(vs);
    if exceeds(params.quorum, tally(votes, t, value, vs), total) {
        match value {
            NilOrVal::Val(v) => Threshold::Value(v),
            NilOrVal::Nil => Threshold::Nil,
        }
    } else if exceeds(params.quorum, tally_type(votes, t, vs), total) {
        Threshold::Any
    } else {
        Threshold::Unreached
    }
}

/// The output that a threshold for votes of type `t` stands for.
///
/// Where enough voters are at a later round, only a quorum of precommits for a
/// value comes before the advice to skip to it.
pub open spec fn output_for<V>(t: VoteType, threshold: Threshold<V>, future_round: Option<Round>) -> Option<
    Output<V>,
> {
    match future_round {
        Some(r) => match (t, threshold) {
            (VoteType::Precommit, Threshold::Value(v)) => Some(Output::PrecommitValue(v)),
            _ => Some(Output::SkipRound(r)),
        },
        None => match (t, threshold) {
            (_, Threshold::Unreached) => None,
            (VoteType::Prevote, Threshold::Any) => Some(Output::PolkaAny),
            (VoteType::Prevote, Threshold::Nil) => Some(Output::PolkaNil),
            (VoteType::Prevote, Threshold::Value(v)) => Some(Output::PolkaValue(v)),
            (VoteType::Precommit, Threshold::Any) => Some(Output::PrecommitAny),
            (VoteType::Precommit, Threshold::Nil) => Some(Output::PrecommitAny),
            (VoteType::Precommit, Threshold::Value(v)) => Some(Output::PrecommitValue(v)),
        },
    }
}

/// The output that recording `vote` calls for, once `votes` holds it and
/// `emitted` was emitted.
///
/// The advice to skip to a later round comes before a polka there; once it was
/// given, the polka is reported.
pub open spec fn output_of_vote<Ctx: Context>(
    votes: Seq<SignedVote<Ctx>>,
    emitted: Seq<Output<Ctx::ValueId>>,
    vote: SignedVote<Ctx>,
    round: Round,
    params: ThresholdParams,
    vs: Seq<Validator<Ctx>>,
) -> Option<Output<Ctx::ValueId>> {
    let told = vote.vote_type == VoteType::Prevote && emitted.contains(Output::SkipRound(vote.round));
    let skip = if vote.round.number() > round.number() && !told && exceeds(
        params.honest,
        tally_voters(votes, vs),
        total_power(vs),
    ) {
        Some(vote.round)
    } else {
        None
    };
    output_for(
        vote.vote_type,
        threshold_reached(votes, vote.vote_type, vote.value, params, vs),
        skip,
    )
}

impl<Ctx: Context> KeeperView<Ctx> {
    /// What is known of `round`.
    pub open spec fn at(self, round: Round) -> RoundView<Ctx> {
        if self.rounds.contains_key(round) {
            self.rounds[round]
        } else {
            RoundView { received: Seq::empty(), emitted: Seq::empty() }
        }
    }

    /// The knowledge after `vote` was applied while in `round`, and the output
    /// that this gives.
    pub open spec fn apply(
        self,
        vote: SignedVote<Ctx>,
        round: Round,
        params: ThresholdParams,
        vs: Seq<Validator<Ctx>>,
    ) -> (KeeperView<Ctx>, Option<Output<Ctx::ValueId>>) {
        let known = self.at(vote.round);
        if !lists(vs, vote.validator_address) {
            (KeeperView { rounds: self.rounds.insert(vote.round, known), ..self }, None)
        } else if conflicts(known.received, vote) {
            let existing = known.received[slot(
                known.received,
                vote.vote_type,
                vote.validator_address,
            )];
            (
                KeeperView {
                    rounds: self.rounds.insert(vote.round, known),
                    evidence: with_evidence(self.evidence, existing, vote),
                },
                None,
            )
        } else {
            let received = recorded(known.received, vote);
            let output = output_of_vote(received, known.emitted, vote, round, params, vs);
            match output {
                Some(o) if !known.emitted.contains(o) => (
                    KeeperView {
                        rounds: self.rounds.insert(
                            vote.round,
                            RoundView { received, emitted: known.emitted.push(o) },
                        ),
                        ..self
                    },
                    Some(o),
                ),
                _ => (
                    KeeperView {
                        rounds: self.rounds.insert(vote.round, RoundView { received, ..known }),
                        ..self
                    },
                    None,
                ),
            }
        }
    }

    /// The knowledge without the rounds before `min_round`.
    pub open spec fn pruned(self, min_round: Round) -> KeeperView<Ctx> {
        KeeperView {
            rounds: self.rounds.restrict(
                Set::new(|r: Round| self.rounds.contains_key(r) && r.number() >= min_round.number()),
            ),
            ..self
        }
    }

    /// Whether `vote` brings nothing new: a vote of the same validator, type
    /// and value is recorded, and `vote` has no extension that it lacks.
    pub open spec fn has_vote(self, vote: SignedVote<Ctx>) -> bool {
        let votes = self.at(vote.round).received;
        has_slot(votes, vote.vote_type, vote.validator_address) && {
            let existing = votes[slot(votes, vote.vote_type, vote.validator_address)];
            existing.value == vote.value && !upgrades(existing, vote)
        }
    }
}

impl<Ctx: Context> PerRound<Ctx> {
    /// The weights are those of the recorded votes, in the validator set `vs`.
    pub open spec fn tallies(self, round: Round, vs: Seq<Validator<Ctx>>) -> bool {
        let votes = self.received_votes@;
        &&& self.wf()
        &&& forall|i: int|
            #![trigger votes[i]]
            0 <= i < votes.len() ==> votes[i].round == round && lists(vs, votes[i].validator_address)
        &&& forall|t: VoteType| #[trigger] self.votes.total(t) == tally_type(votes, t, vs)
        &&& forall|t: VoteType, v: NilOrVal<Ctx::ValueId>| #[trigger]
            self.votes.weight(t, v) == tally(votes, t, v, vs)
        &&& self.addresses_weights.total() == tally_voters(votes, vs)
        &&& self.addresses_weights.weights@.map_values(|e: (Ctx::Address, Weight)| e.0) == voters(votes)
    }

    /// What is known of the round.
    pub open spec fn known(self) -> RoundView<Ctx> {
        RoundView { received: self.received_votes@, emitted: self.emitted_outputs@ }
    }
}

/// Keeps track of votes and emits outputs when thresholds are reached.
pub struct VoteKeeper<Ctx: Context> {
    /// The validator set of this height.
    pub validator_set: ValidatorSet<Ctx>,
    /// The thresholds.
    pub threshold_params: ThresholdParams,
    /// The votes and emitted outputs of each round.
    pub per_round: OrdMap<Round, PerRound<Ctx>>,
    /// Evidence of equivocation.
    pub evidence: EvidenceMap<Ctx>,
}

impl<Ctx: Context> View for VoteKeeper<Ctx> {
    type V = KeeperView<Ctx>;

    open spec fn view(&self) -> KeeperView<Ctx> {
        KeeperView {
            rounds: self.per_round@.map_values(|p: PerRound<Ctx>| p.known()),
            evidence: self.evidence@,
        }
    }
}

impl<Ctx: Context> VoteKeeper<Ctx> {
    /// Every tally is that of the recorded votes.
    pub open spec fn wf(self) -> bool {
        &&& self.validator_set.wf()
        &&& self.per_round.wf()
        &&& self.evidence.wf()
        &&& forall|r: Round| #[trigger]
            self.per_round@.contains_key(r) ==> self.per_round@[r].tallies(
                r,
                self.validator_set.validators@,
            )
    }

    /// Whether thresholds of the total voting power can be computed.
    pub open spec fn computable(self) -> bool {
        self.threshold_params.fits(self.validator_set.total())
    }

    /// A keeper without votes.
    pub fn new(validator_set: ValidatorSet<Ctx>, threshold_params: ThresholdParams) -> (r: Self)
        requires
            validator_set.wf(),
        ensures
            r.wf(),
            r.validator_set == validator_set,
            r.threshold_params == threshold_params,
            r@.rounds == Map::<Round, RoundView<Ctx>>::empty(),
            r@.evidence == Map::<Ctx::Address, Seq<DoubleVote<Ctx>>>::empty(),
    {
        let r = VoteKeeper {
            validator_set,
            threshold_params,
            per_round: OrdMap::new(),
            evidence: EvidenceMap::new(),
        };
        assert(r@.rounds =~= Map::<Round, RoundView<Ctx>>::empty());
        r
    }

    /// Apply `vote` while in `round`, potentially giving an output.
    pub fn apply_vote(&mut self, vote: SignedVote<Ctx>, round: Round) -> (r: Option<Output<Ctx::ValueId>>)
        requires
            old(self).wf(),
            old(self).computable(),
        ensures
            final(self).wf(),
            final(self).validator_set == old(self).validator_set,
            final(self).threshold_params == old(self).threshold_params,
            (final(self)@, r) == old(self)@.apply(
                vote,
                round,
                old(self).threshold_params,
                old(self).validator_set.validators@,
            ),
    {
        let ghost before = *self;
        let ghost vs = self.validator_set.validators@;
        let total_weight: u64 = self.total_weight();
        let vote_round = vote.round;
        let count: usize = self.validator_set.count();
        let mut per_round = match self.per_round.remove(&vote_round) {
            Some(p) => p,
            None => {
                let p = PerRound::with_expected_number_of_votes(count);
                proof {
                    lemma_fresh_tallies(p, vote_round, vs);
                }
                p
            },
        };
        let ghost known = per_round.known();
        assert(known == before@.at(vote_round));
        let weight: u64 = match self.validator_set.get_by_address(&vote.validator_address) {
            Some(validator) => validator.voting_power,
            None => {
                self.per_round.insert(vote_round, per_round);
                proof {
                    self.lemma_reinserted(before, vote_round, per_round);
                }
                return None;
            },
        };
        let vote_type = vote.vote_type;
        let value = vote.value.dup();
        let ghost entry = per_round;
        proof {
            lemma_room_for_vote(entry, vote, vs, weight);
        }
        match per_round.add(vote, weight) {
            Ok(()) => {},
            Err(RecordVoteError::ConflictingVote { existing, conflicting }) => {
                self.evidence.add(existing, conflicting);
                self.per_round.insert(vote_round, per_round);
                proof {
                    self.lemma_reinserted(before, vote_round, per_round);
                }
                return None;
            },
        }
        proof {
            lemma_add_tallies(entry, per_round, vote, vs, weight);
            lemma_tallies_bounded(per_round.received_votes@, vote_type, value, vs);
        }
        let threshold = compute_threshold(
            vote_type,
            &per_round,
            &value,
            self.threshold_params,
            total_weight,
            Ghost(vs),
            Ghost(vote_round),
        );
        let later = round.precedes(&vote_round);
        let told = vote_type == VoteType::Prevote && holds_output(
            &per_round.emitted_outputs,
            &Output::SkipRound(vote_round),
        );
        let skip_round = if later && !told && self.threshold_params.honest.is_met(
            per_round.addresses_weights.sum(),
            total_weight,
        ) {
            Some(vote_round)
        } else {
            None
        };
        let output = threshold_to_output(vote_type, threshold, skip_round);
        assert(output == output_of_vote(
            per_round.received_votes@,
            known.emitted,
            vote,
            round,
            self.threshold_params,
            vs,
        ));
        let result = match output {
            Some(output) => {
                if holds_output(&per_round.emitted_outputs, &output) {
                    None
                } else {
                    per_round.emitted_outputs.push(output.dup());
                    Some(output)
                }
            },
            None => None,
        };
        self.per_round.insert(vote_round, per_round);
        proof {
            self.lemma_reinserted(before, vote_round, per_round);
        }
        result
    }

    /// Putting back the entry of a round that was taken out for an update.
    proof fn lemma_reinserted(self, before: Self, r: Round, p: PerRound<Ctx>)
        requires
            before.wf(),
            p.tallies(r, before.validator_set.validators@),
            self.validator_set == before.validator_set,
            self.threshold_params == before.threshold_params,
            self.evidence.wf(),
            self.per_round.wf(),
            self.per_round@ == before.per_round@.remove(r).insert(r, p),
        ensures
            self.wf(),
            self@.rounds == before@.rounds.insert(r, p.known()),
    {
        assert(self@.rounds =~= before@.rounds.insert(r, p.known()));
        assert forall|q: Round| #[trigger] self.per_round@.contains_key(q) implies self.per_round@[q].tallies(
            q,
            self.validator_set.validators@,
        ) by {
            if q != r {
                assert(before.per_round@.contains_key(q));
            }
        }
    }

    /// The validator set.
    pub fn validator_set(&self) -> (r: &ValidatorSet<Ctx>)
        ensures
            *r == self.validator_set,
    {
        &self.validator_set
    }

    /// The total voting power.
    pub fn total_weight(&self) -> (r: Weight)
        requires
            self.wf(),
        ensures
            r == self.validator_set.total(),
    {
        self.validator_set.total_voting_power()
    }

    /// The votes of `round`.
    pub fn per_round(&self, round: Round) -> (r: Option<&PerRound<Ctx>>)
        requires
            self.wf(),
        ensures
            match r {
                Some(p) => self@.rounds.contains_key(round) && p.known() == self@.rounds[round]
                    && p.tallies(round, self.validator_set.validators@),
                None => !self@.rounds.contains_key(round),
            },
    {
        self.per_round.get(&round)
    }

    /// The votes of all rounds seen so far.
    pub fn all_rounds(&self) -> (r: &OrdMap<Round, PerRound<Ctx>>)
        ensures
            *r == self.per_round,
    {
        &self.per_round
    }

    /// How many rounds were seen so far.
    pub fn rounds(&self) -> (r: usize)
        requires
            self.wf(),
        ensures
            r == self@.rounds.len(),
    {
        proof {
            assert(self@.rounds.dom() =~= self.per_round@.dom());
        }
        self.per_round.len()
    }

    /// The highest round seen so far, or none.
    pub fn max_round(&self) -> (r: Round)
        requires
            self.wf(),
        ensures
            forall|q: Round| #[trigger] self@.rounds.contains_key(q) ==> q.number() <= r.number(),
            self@.rounds == Map::<Round, RoundView<Ctx>>::empty() ==> r == Round::Nil,
            self@.rounds != Map::<Round, RoundView<Ctx>>::empty() ==> self@.rounds.contains_key(r),
    {
        let n: usize = self.per_round.entries.len();
        if n == 0 {
            assert(self@.rounds =~= Map::<Round, RoundView<Ctx>>::empty());
            Round::Nil
        } else {
            let r = self.per_round.entries[n - 1].0;
            proof {
                self.per_round.lemma_entry(n - 1);
                assert(self@.rounds.contains_key(r));
                assert forall|q: Round| #[trigger] self@.rounds.contains_key(q) implies q.number()
                    <= r.number() by {
                    assert(self.per_round.has(q));
                    let i = self.per_round.index_of(q);
                    if i < n - 1 {
                        assert(self.per_round.entries@[i].0.rank()
                            < self.per_round.entries@[n - 1].0.rank());
                    }
                }
            }
            r
        }
    }

    /// The recorded equivocations.
    pub fn evidence(&self) -> (r: &EvidenceMap<Ctx>)
        requires
            self.wf(),
        ensures
            *r == self.evidence,
            r.wf(),
            r@ == self@.evidence,
    {
        &self.evidence
    }

    /// Take the recorded equivocations out of the keeper.
    pub fn take_evidence(&mut self) -> (r: EvidenceMap<Ctx>)
        requires
            old(self).wf(),
        ensures
            r.wf(),
            r@ == old(self)@.evidence,
            final(self).wf(),
            final(self).validator_set == old(self).validator_set,
            final(self).threshold_params == old(self).threshold_params,
            final(self)@ == (KeeperView {
                evidence: Map::<Ctx::Address, Seq<DoubleVote<Ctx>>>::empty(),
                ..old(self)@
            }),
    {
        let mut evidence = EvidenceMap::new();
        std::mem::swap(&mut evidence, &mut self.evidence);
        evidence
    }

    /// Whether `vote` was seen already and brings nothing new.
    pub fn has_vote(&self, vote: &SignedVote<Ctx>) -> (r: bool)
        requires
            self.wf(),
        ensures
            r == self@.has_vote(*vote),
    {
        match self.per_round.get(&vote.round) {
            None => {
                assert(self@.at(vote.round).received.len() == 0);
                false
            },
            Some(per_round) => match per_round.get_vote(vote.vote_type, &vote.validator_address) {
                None => false,
                Some(existing) => existing.value.same(&vote.value) && !(existing.extension.is_none()
                    && vote.extension.is_some()),
            },
        }
    }

    /// Whether there is a quorum for `threshold` among the votes of type
    /// `vote_type` in `round`.
    pub fn is_threshold_met(
        &self,
        round: &Round,
        vote_type: VoteType,
        threshold: Threshold<Ctx::ValueId>,
    ) -> (r: bool)
        requires
            self.wf(),
            self.computable(),
        ensures
            r == (self@.rounds.contains_key(*round) && meets(
                self@.rounds[*round].received,
                vote_type,
                threshold,
                self.threshold_params,
                self.validator_set.validators@,
            )),
    {
        match self.per_round.get(round) {
            None => false,
            Some(per_round) => per_round.votes.is_threshold_met(
                vote_type,
                threshold,
                self.threshold_params.quorum,
                self.total_weight(),
            ),
        }
    }

    /// Drop the votes of the rounds before `min_round`.
    pub fn prune_votes(&mut self, min_round: Round)
        requires
            old(self).wf(),
        ensures
            final(self).wf(),
            final(self).validator_set == old(self).validator_set,
            final(self).threshold_params == old(self).threshold_params,
            final(self)@ == old(self)@.pruned(min_round),
    {
        let ghost before = *self;
        self.per_round.drop_below(&min_round);
        proof {
            assert(self@.rounds =~= before@.pruned(min_round).rounds);
            assert forall|q: Round| #[trigger] self.per_round@.contains_key(q) implies self.per_round@[q].tallies(
                q,
                self.validator_set.validators@,
            ) by {
                assert(before.per_round@.contains_key(q));
            }
        }
    }
}

/// Whether the votes of type `t` have a quorum for `threshold`.
pub open spec fn meets<Ctx: Context>(
    votes: Seq<SignedVote<Ctx>>,
    t: VoteType,
    threshold: Threshold<Ctx::ValueId>,
    params: ThresholdParams,
    vs: Seq<Validator<Ctx>>,
) -> bool {
    match threshold {
        Threshold::Value(v) => exceeds(params.quorum, tally(votes, t, NilOrVal::Val(v), vs), total_power(vs)),
        Threshold::Nil => exceeds(params.quorum, tally(votes, t, NilOrVal::Nil, vs), total_power(vs)),
        Threshold::Any => exceeds(params.quorum, tally_type(votes, t, vs), total_power(vs)),
        Threshold::Unreached => false,
    }
}

/// Whether `outputs` holds `output`.
fn holds_output<V: Ident>(outputs: &Vec<Output<V>>, output: &Output<V>) -> (r: bool)
    ensures
        r == outputs@.contains(*output),
{
    let mut i: usize = 0;
    while i < outputs.len()
        invariant
            i <= outputs@.len(),
            forall|j: int| 0 <= j < i ==> #[trigger] outputs@[j] != *output,
        decreases outputs@.len() - i,
    {
        if outputs[i].same(output) {
            return true;
        }
        i = i + 1;
    }
    false
}

/// The threshold that the votes of type `vote_type` in `round` reach, seen
/// from `value`.
fn compute_threshold<Ctx: Context>(
    vote_type: VoteType,
    round: &PerRound<Ctx>,
    value: &NilOrVal<Ctx::ValueId>,
    thresholds: ThresholdParams,
    total_weight: Weight,
    Ghost(vs): Ghost<Seq<Validator<Ctx>>>,
    Ghost(number): Ghost<Round>,
) -> (r: Threshold<Ctx::ValueId>)
    requires
        round.tallies(number, vs),
        total_weight == total_power(vs),
        thresholds.fits(total_weight as nat),
    ensures
        r == threshold_reached(round.received_votes@, vote_type, *value, thresholds, vs),
{
    let weight: u64 = round.votes.get_weight(vote_type, value);
    if thresholds.quorum.is_met(weight, total_weight) {
        match value {
            NilOrVal::Val(v) => Threshold::Value(v.dup()),
            NilOrVal::Nil => Threshold::Nil,
        }
    } else {
        let weight_sum: u64 = round.votes.weight_sum(vote_type);
        if thresholds.quorum.is_met(weight_sum, total_weight) {
            Threshold::Any
        } else {
            Threshold::Unreached
        }
    }
}

/// The output that a threshold stands for.
fn threshold_to_output<V>(typ: VoteType, threshold: Threshold<V>, future_round: Option<Round>) -> (r: Option<
    Output<V>,
>)
    ensures
        r == output_for(typ, threshold, future_round),
{
    match future_round {
        Some(future_round) => match (typ, threshold) {
            (VoteType::Precommit, Threshold::Value(v)) => Some(Output::PrecommitValue(v)),
            (_, _) => Some(Output::SkipRound(future_round)),
        },
        None => match (typ, threshold) {
            (_, Threshold::Unreached) => None,
            (VoteType::Prevote, Threshold::Any) => Some(Output::PolkaAny),
            (VoteType::Prevote, Threshold::Nil) => Some(Output::PolkaNil),
            (VoteType::Prevote, Threshold::Value(v)) => Some(Output::PolkaValue(v)),
            (VoteType::Precommit, Threshold::Any) => Some(Output::PrecommitAny),
            (VoteType::Precommit, Threshold::Nil) => Some(Output::PrecommitAny),
            (VoteType::Precommit, Threshold::Value(v)) => Some(Output::PrecommitValue(v)),
        },
    }
}

proof fn lemma_fresh_tallies<Ctx: Context>(p: PerRound<Ctx>, round: Round, vs: Seq<Validator<Ctx>>)
    requires
        p.is_fresh(),
    ensures
        p.tallies(round, vs),
{
    assert(p.addresses_weights.weights@.map_values(|e: (Ctx::Address, Weight)| e.0) =~= voters(
        p.received_votes@,
    ));
}

/// A validator's first vote of a type fits into the tally of that type.
proof fn lemma_room_for_vote<Ctx: Context>(
    p: PerRound<Ctx>,
    vote: SignedVote<Ctx>,
    vs: Seq<Validator<Ctx>>,
    weight: Weight,
)
    requires
        p.tallies(vote.round, vs),
        distinct_addresses(vs),
        total_power(vs) <= u64::MAX,
        weight == power_in(vs, vote.validator_address),
    ensures
        !has_slot(p.received_votes@, vote.vote_type, vote.validator_address) ==> p.votes.total(
            vote.vote_type,
        ) + weight <= u64::MAX,
{
    let votes = p.received_votes@;
    let t = vote.vote_type;
    let a = vote.validator_address;
    if !has_slot(votes, t, a) {
        lemma_voters_distinct(votes, t, vote.value);
        lemma_voters_of_type_slots(votes, t, a);
        let s = voters_of_type(votes, t);
        assert(s.push(a).no_duplicates());
        lemma_weight_bounded::<Ctx>(s.push(a), vs);
        assert(s.push(a).drop_last() =~= s);
    }
}

/// Recording a vote keeps every weight that of the recorded votes.
proof fn lemma_add_tallies<Ctx: Context>(
    before: PerRound<Ctx>,
    after: PerRound<Ctx>,
    vote: SignedVote<Ctx>,
    vs: Seq<Validator<Ctx>>,
    weight: Weight,
)
    requires
        before.tallies(vote.round, vs),
        lists(vs, vote.validator_address),
        weight == power_in(vs, vote.validator_address),
        after.wf(),
        !conflicts(before.received_votes@, vote),
        after.received_votes@ == recorded(before.received_votes@, vote),
        has_slot(before.received_votes@, vote.vote_type, vote.validator_address) ==> {
            &&& after.votes == before.votes
            &&& after.addresses_weights == before.addresses_weights
        },
        !has_slot(before.received_votes@, vote.vote_type, vote.validator_address) ==> {
            &&& counts_vote(before.votes, after.votes, vote, weight)
            &&& after.addresses_weights.weights@ == weighed_once(
                before.addresses_weights.weights@,
                vote.validator_address,
                weight,
            )
        },
    ensures
        after.tallies(vote.round, vs),
{
    let old_votes = before.received_votes@;
    let votes = after.received_votes@;
    let t = vote.vote_type;
    let a = vote.validator_address;
    if has_slot(old_votes, t, a) {
        let k = slot(old_votes, t, a);
        if upgrades(old_votes[k], vote) {
            assert forall|u: VoteType| #[trigger] after.votes.total(u) == tally_type(votes, u, vs) by {
                lemma_update_voters(old_votes, k, vote, u, NilOrVal::Nil);
                assert(before.votes.total(u) == tally_type(old_votes, u, vs));
            }
            assert forall|u: VoteType, v: NilOrVal<Ctx::ValueId>| #[trigger] after.votes.weight(u, v) == tally(
                votes,
                u,
                v,
                vs,
            ) by {
                lemma_update_voters(old_votes, k, vote, u, v);
                assert(before.votes.weight(u, v) == tally(old_votes, u, v, vs));
            }
            lemma_update_voters(old_votes, k, vote, t, NilOrVal::Nil);
            assert forall|i: int|
                #![trigger votes[i]]
                0 <= i < votes.len() implies votes[i].round == vote.round && lists(
                vs,
                votes[i].validator_address,
            ) by {
                if i != k {
                    assert(votes[i] == old_votes[i]);
                }
            }
        }
    } else {
        assert(votes.drop_last() =~= old_votes);
        assert(votes.last() == vote);
        assert forall|i: int|
            #![trigger votes[i]]
            0 <= i < votes.len() implies votes[i].round == vote.round && lists(
            vs,
            votes[i].validator_address,
        ) by {
            if i < old_votes.len() {
                assert(votes[i] == old_votes[i]);
            }
        }
        assert forall|u: VoteType| #[trigger] after.votes.total(u) == tally_type(votes, u, vs) by {
            assert(before.votes.total(u) == tally_type(old_votes, u, vs));
            if u == t {
                let s = voters_of_type(old_votes, u);
                assert(s.push(a).drop_last() =~= s);
            } else {
                assert(after.votes.count(u) == before.votes.count(u));
            }
        }
        assert forall|u: VoteType, v: NilOrVal<Ctx::ValueId>| #[trigger] after.votes.weight(u, v) == tally(
            votes,
            u,
            v,
            vs,
        ) by {
            assert(before.votes.weight(u, v) == tally(old_votes, u, v, vs));
            if u == t {
                let s = voters_for(old_votes, u, v);
                assert(s.push(a).drop_last() =~= s);
                assert(after.votes.weight(t, v) == if v == vote.value {
                    before.votes.weight(t, v) + weight as nat
                } else {
                    before.votes.weight(t, v)
                });
            } else {
                assert(after.votes.count(u) == before.votes.count(u));
            }
        }
        let ws = before.addresses_weights.weights@;
        let key = |e: (Ctx::Address, Weight)| e.0;
        let names = ws.map_values(key);
        assert(listed(ws, a) == voters(old_votes).contains(a)) by {
            if listed(ws, a) {
                let i = choose|i: int| 0 <= i < ws.len() && (#[trigger] ws[i]).0 == a;
                assert(names[i] == a);
            }
            if names.contains(a) {
                let i = choose|i: int| 0 <= i < names.len() && names[i] == a;
                assert(ws[i].0 == a);
            }
        }
        if listed(ws, a) {
        } else {
            let s = voters(old_votes);
            assert(s.push(a).drop_last() =~= s);
            assert(ws.push((a, weight)).drop_last() =~= ws);
            assert(ws.push((a, weight)).map_values(key) =~= names.push(a));
        }
    }
}

} // verus!
