//! The Fast Tendermint vote keeper.

use vstd::prelude::*;

use crate::ident::{Ident, OrdMap};
use crate::types::{
    distinct_addresses, exceeds, lemma_weight_bounded, lists, power_in, total_power, weight_of,
    Context, NilOrVal, Round, SignedVote, Validator, ValidatorSet, Weight,
};
use crate::votekeeper::evidence::{with_evidence, DoubleVote, EvidenceMap};
use crate::votekeeper::fast::params::FastThresholdParams;
use crate::votekeeper::keeper::lemma_push_contains;
use crate::votekeeper::tally::{listed, weighed_once, RoundWeights, ValuesWeights};

verus! {

/// What the keeper reports when a threshold is crossed.
///
/// The two value thresholds are separate on purpose: crossing `2f+1` must not
/// suppress a later `n - f` in the same round.
#[derive(Debug, PartialEq, Eq)]
pub enum Output<V> {
    /// `2f+1` votes for this value in this round.
    VoteQuorumValue(V),
    /// `n - f` votes for this value, enough to decide.
    DecisionQuorumValue(V),
    /// `n - f` votes spread across any values, nil among them.
    QuorumAny,
}

/// Whether `votes` has a vote of the validator `a`.
pub open spec fn voted<Ctx: Context>(votes: Seq<SignedVote<Ctx>>, a: Ctx::Address) -> bool {
    exists|i: int| 0 <= i < votes.len() && (#[trigger] votes[i]).validator_address == a
}

/// The index in `votes` of the vote of the validator `a`.
pub open spec fn vote_index<Ctx: Context>(votes: Seq<SignedVote<Ctx>>, a: Ctx::Address) -> int {
    choose|i: int| 0 <= i < votes.len() && (#[trigger] votes[i]).validator_address == a
}

/// The validators that voted, in order.
pub open spec fn casters<Ctx: Context>(votes: Seq<SignedVote<Ctx>>) -> Seq<Ctx::Address>
    decreases votes.len(),
{
    if votes.len() == 0 {
        Seq::empty()
    } else {
        casters(votes.drop_last()).push(votes.last().validator_address)
    }
}

/// The validators that voted for `v`, in order.
pub open spec fn backers<Ctx: Context>(votes: Seq<SignedVote<Ctx>>, v: NilOrVal<Ctx::ValueId>) -> Seq<
    Ctx::Address,
>
    decreases votes.len(),
{
    if votes.len() == 0 {
        Seq::empty()
    } else {
        let rest = backers(votes.drop_last(), v);
        if votes.last().value == v {
            rest.push(votes.last().validator_address)
        } else {
            rest
        }
    }
}

/// What the keeper knows of one round.
pub struct FastRoundView<Ctx: Context> {
    /// The first vote of each validator, in order of arrival.
    pub votes: Seq<SignedVote<Ctx>>,
    /// The values reported as having `2f+1` votes.
    pub vote_quorum: Seq<Ctx::ValueId>,
    /// The values reported as having `n - f` votes.
    pub decision_quorum: Seq<Ctx::ValueId>,
    /// Whether `n - f` votes for anything were reported.
    pub quorum_any: bool,
}

/// What the keeper knows.
#[verifier::reject_recursive_types(Ctx)]
pub struct FastKeeperView<Ctx: Context> {
    /// The rounds with votes.
    pub rounds: Map<Round, FastRoundView<Ctx>>,
    /// The recorded equivocations.
    pub evidence: Map<Ctx::Address, Seq<DoubleVote<Ctx>>>,
}

/// The thresholds that a round newly crosses through its last vote.
pub struct Crossed {
    pub vote_quorum: bool,
    pub decision_quorum: bool,
    pub quorum_any: bool,
}

impl<Ctx: Context> FastRoundView<Ctx> {
    /// A round without votes.
    pub open spec fn fresh() -> FastRoundView<Ctx> {
        FastRoundView {
            votes: Seq::empty(),
            vote_quorum: Seq::empty(),
            decision_quorum: Seq::empty(),
            quorum_any: false,
        }
    }

    /// The weight of the votes for `v`.
    pub open spec fn weight(self, v: NilOrVal<Ctx::ValueId>, vs: Seq<Validator<Ctx>>) -> nat {
        weight_of::<Ctx>(backers(self.votes, v), vs)
    }

    /// The weight of all votes.
    pub open spec fn total(self, vs: Seq<Validator<Ctx>>) -> nat {
        weight_of::<Ctx>(casters(self.votes), vs)
    }

    /// What this round, whose votes include one for `value`, has to report.
    pub open spec fn crossed(
        self,
        value: NilOrVal<Ctx::ValueId>,
        params: FastThresholdParams,
        vs: Seq<Validator<Ctx>>,
    ) -> Crossed {
        let total = total_power(vs);
        let weight = self.weight(value, vs);
        Crossed {
            vote_quorum: match value {
                NilOrVal::Val(id) => exceeds(params.quorum, weight, total)
                    && !self.vote_quorum.contains(id),
                NilOrVal::Nil => false,
            },
            decision_quorum: match value {
                NilOrVal::Val(id) => exceeds(params.decision, weight, total)
                    && !self.decision_quorum.contains(id),
                NilOrVal::Nil => false,
            },
            quorum_any: exceeds(params.decision, self.total(vs), total) && !self.quorum_any,
        }
    }

    /// This round after the crossed thresholds were reported.
    pub open spec fn latched(self, value: NilOrVal<Ctx::ValueId>, c: Crossed) -> FastRoundView<Ctx> {
        FastRoundView {
            votes: self.votes,
            vote_quorum: match value {
                NilOrVal::Val(id) if c.vote_quorum => self.vote_quorum.push(id),
                _ => self.vote_quorum,
            },
            decision_quorum: match value {
                NilOrVal::Val(id) if c.decision_quorum => self.decision_quorum.push(id),
                _ => self.decision_quorum,
            },
            quorum_any: self.quorum_any || c.quorum_any,
        }
    }
}

/// The reports for the crossed thresholds: validity before decision, so that a
/// consumer of both sees a value become valid before it is decided.
pub open spec fn reports<V>(value: NilOrVal<V>, c: Crossed) -> Seq<Output<V>> {
    let first = match value {
        NilOrVal::Val(id) if c.vote_quorum => seq![Output::VoteQuorumValue(id)],
        _ => Seq::empty(),
    };
    let second = match value {
        NilOrVal::Val(id) if c.decision_quorum => first.push(Output::DecisionQuorumValue(id)),
        _ => first,
    };
    if c.quorum_any {
        second.push(Output::QuorumAny)
    } else {
        second
    }
}

impl<Ctx: Context> FastKeeperView<Ctx> {
    /// What is known of `round`.
    pub open spec fn at(self, round: Round) -> FastRoundView<Ctx> {
        if self.rounds.contains_key(round) {
            self.rounds[round]
        } else {
            FastRoundView::fresh()
        }
    }

    /// The knowledge after `vote` was applied, and the reports that this gives.
    pub open spec fn apply(
        self,
        vote: SignedVote<Ctx>,
        params: FastThresholdParams,
        vs: Seq<Validator<Ctx>>,
    ) -> (FastKeeperView<Ctx>, Seq<Output<Ctx::ValueId>>) {
        let known = self.at(vote.round);
        if !lists(vs, vote.validator_address) {
            (self, Seq::empty())
        } else if voted(known.votes, vote.validator_address) {
            let existing = known.votes[vote_index(known.votes, vote.validator_address)];
            if existing.value != vote.value {
                (
                    FastKeeperView {
                        evidence: with_evidence(self.evidence, existing, vote),
                        ..self
                    },
                    Seq::empty(),
                )
            } else {
                (self, Seq::empty())
            }
        } else {
            let counted = FastRoundView { votes: known.votes.push(vote), ..known };
            let crossed = counted.crossed(vote.value, params, vs);
            (
                FastKeeperView {
                    rounds: self.rounds.insert(vote.round, counted.latched(vote.value, crossed)),
                    ..self
                },
                reports(vote.value, crossed),
            )
        }
    }

    /// The knowledge without the rounds before `min_round`.
    pub open spec fn pruned(self, min_round: Round) -> FastKeeperView<Ctx> {
        FastKeeperView {
            rounds: self.rounds.restrict(
                Set::new(|r: Round| self.rounds.contains_key(r) && r.number() >= min_round.number()),
            ),
            ..self
        }
    }
}

/// What a first vote is reported for, and what is remembered of that.
pub proof fn lemma_fast_reports<Ctx: Context>(
    known: FastRoundView<Ctx>,
    vote: SignedVote<Ctx>,
    params: FastThresholdParams,
    vs: Seq<Validator<Ctx>>,
    v: Ctx::ValueId,
)
    ensures
        ({
            let counted = FastRoundView { votes: known.votes.push(vote), ..known };
            let c = counted.crossed(vote.value, params, vs);
            let out = reports(vote.value, c);
            let next = counted.latched(vote.value, c);
            let is_it = vote.value == NilOrVal::Val(v);
            &&& out.contains(Output::VoteQuorumValue(v)) == (c.vote_quorum && is_it)
            &&& out.contains(Output::DecisionQuorumValue(v)) == (c.decision_quorum && is_it)
            &&& out.contains(Output::QuorumAny) == c.quorum_any
            &&& next.vote_quorum.contains(v) == (known.vote_quorum.contains(v) || (c.vote_quorum
                && is_it))
            &&& next.decision_quorum.contains(v) == (known.decision_quorum.contains(v) || (
            c.decision_quorum && is_it))
        }),
{
    let counted = FastRoundView { votes: known.votes.push(vote), ..known };
    let c = counted.crossed(vote.value, params, vs);
    let none = Seq::<Output<Ctx::ValueId>>::empty();
    let first: Seq<Output<Ctx::ValueId>> = match vote.value {
        NilOrVal::Val(id) if c.vote_quorum => seq![Output::VoteQuorumValue(id)],
        _ => none,
    };
    let second = match vote.value {
        NilOrVal::Val(id) if c.decision_quorum => first.push(Output::DecisionQuorumValue(id)),
        _ => first,
    };
    assert forall|o: Output<Ctx::ValueId>| #[trigger] reports(vote.value, c).contains(o) == match o {
        Output::VoteQuorumValue(x) => c.vote_quorum && vote.value == NilOrVal::Val(x),
        Output::DecisionQuorumValue(x) => c.decision_quorum && vote.value == NilOrVal::Val(x),
        Output::QuorumAny => c.quorum_any,
    } by {
        if let NilOrVal::Val(id) = vote.value {
            assert(none.push(Output::VoteQuorumValue(id)) =~= seq![Output::VoteQuorumValue(id)]);
            lemma_push_contains(none, Output::VoteQuorumValue(id), o);
            lemma_push_contains(first, Output::DecisionQuorumValue(id), o);
        }
        lemma_push_contains(second, Output::QuorumAny, o);
    }
    if let NilOrVal::Val(id) = vote.value {
        lemma_push_contains(known.vote_quorum, id, v);
        lemma_push_contains(known.decision_quorum, id, v);
    }
    assert(reports(vote.value, c).contains(Output::VoteQuorumValue(v)) == (c.vote_quorum && vote.value
        == NilOrVal::Val(v)));
    assert(reports(vote.value, c).contains(Output::DecisionQuorumValue(v)) == (c.decision_quorum
        && vote.value == NilOrVal::Val(v)));
    assert(reports(vote.value, c).contains(Output::<Ctx::ValueId>::QuorumAny) == c.quorum_any);
}

/// The votes of one round.
pub struct PerRound<Ctx: Context> {
    /// Weight per voted value, with nil as a value of its own.
    pub values_weights: ValuesWeights<NilOrVal<Ctx::ValueId>>,
    /// Weight per voter, counted once each.
    pub addresses_weights: RoundWeights<Ctx::Address>,
    /// The first vote of each validator, kept whole: evidence needs the pair.
    pub votes: Vec<SignedVote<Ctx>>,
    /// The values reported as having `2f+1` votes.
    pub vote_quorum: Vec<Ctx::ValueId>,
    /// The values reported as having `n - f` votes.
    pub decision_quorum: Vec<Ctx::ValueId>,
    /// Whether `n - f` votes for anything were reported.
    pub quorum_any: bool,
}

/// Whether no validator occurs twice in `votes`.
pub open spec fn one_vote_per_validator<Ctx: Context>(votes: Seq<SignedVote<Ctx>>) -> bool {
    forall|i: int, j: int|
        #![trigger votes[i], votes[j]]
        0 <= i < j < votes.len() ==> votes[i].validator_address != votes[j].validator_address
}

impl<Ctx: Context> PerRound<Ctx> {
    /// What is known of the round.
    pub open spec fn known(self) -> FastRoundView<Ctx> {
        FastRoundView {
            votes: self.votes@,
            vote_quorum: self.vote_quorum@,
            decision_quorum: self.decision_quorum@,
            quorum_any: self.quorum_any,
        }
    }

    /// The weights are those of the votes, in the validator set `vs`.
    pub open spec fn tallies(self, round: Round, vs: Seq<Validator<Ctx>>) -> bool {
        &&& self.values_weights.wf()
        &&& self.addresses_weights.wf()
        &&& one_vote_per_validator(self.votes@)
        &&& forall|i: int|
            #![trigger self.votes@[i]]
            0 <= i < self.votes@.len() ==> self.votes@[i].round == round
        &&& forall|v: NilOrVal<Ctx::ValueId>| #[trigger]
            self.values_weights.weight(v) == weight_of::<Ctx>(backers(self.votes@, v), vs)
        &&& self.values_weights.total() == weight_of::<Ctx>(casters(self.votes@), vs)
        &&& self.addresses_weights.total() == weight_of::<Ctx>(casters(self.votes@), vs)
        &&& self.addresses_weights.weights@.map_values(|e: (Ctx::Address, Weight)| e.0) == casters(
            self.votes@,
        )
    }

    /// A round without votes.
    fn new(Ghost(round): Ghost<Round>, Ghost(vs): Ghost<Seq<Validator<Ctx>>>) -> (r: Self)
        ensures
            r.known() == FastRoundView::<Ctx>::fresh(),
            r.tallies(round, vs),
    {
        let r = PerRound {
            values_weights: ValuesWeights::new(),
            addresses_weights: RoundWeights::new(),
            votes: Vec::new(),
            vote_quorum: Vec::new(),
            decision_quorum: Vec::new(),
            quorum_any: false,
        };
        proof {
            assert(r.votes@ =~= Seq::<SignedVote<Ctx>>::empty());
            assert(r.vote_quorum@ =~= Seq::<Ctx::ValueId>::empty());
            assert(r.decision_quorum@ =~= Seq::<Ctx::ValueId>::empty());
            assert(r.addresses_weights.weights@.map_values(|e: (Ctx::Address, Weight)| e.0) =~= casters(
                r.votes@,
            ));
        }
        r
    }

    /// The index of the vote of `address`.
    fn find_vote(&self, address: &Ctx::Address) -> (r: Option<usize>)
        requires
            one_vote_per_validator(self.votes@),
        ensures
            match r {
                Some(i) => i < self.votes@.len() && voted(self.votes@, *address) && i == vote_index(
                    self.votes@,
                    *address,
                ) && self.votes@[i as int].validator_address == *address,
                None => !voted(self.votes@, *address),
            },
    {
        let mut i: usize = 0;
        while i < self.votes.len()
            invariant
                one_vote_per_validator(self.votes@),
                i <= self.votes@.len(),
                forall|j: int| 0 <= j < i ==> (#[trigger] self.votes@[j]).validator_address != *address,
            decreases self.votes@.len() - i,
        {
            if self.votes[i].validator_address.same(address) {
                proof {
                    let k = vote_index(self.votes@, *address);
                    assert(self.votes@[k].validator_address == *address);
                    assert(k == i);
                }
                return Some(i);
            }
            i = i + 1;
        }
        None
    }
}

/// The validators that voted are those of the votes.
pub proof fn lemma_casters<Ctx: Context>(votes: Seq<SignedVote<Ctx>>)
    ensures
        casters(votes).len() == votes.len(),
        forall|i: int|
            0 <= i < votes.len() ==> #[trigger] casters(votes)[i] == votes[i].validator_address,
    decreases votes.len(),
{
    if votes.len() > 0 {
        lemma_casters(votes.drop_last());
        assert forall|i: int| 0 <= i < votes.len() implies #[trigger] casters(votes)[i]
            == votes[i].validator_address by {
            if i < votes.len() - 1 {
                assert(casters(votes.drop_last())[i] == votes.drop_last()[i].validator_address);
            }
        }
    }
}

/// Counting a first vote keeps every weight that of the votes.
proof fn lemma_count_vote<Ctx: Context>(
    before: PerRound<Ctx>,
    after: PerRound<Ctx>,
    vote: SignedVote<Ctx>,
    vs: Seq<Validator<Ctx>>,
    weight: Weight,
)
    requires
        before.tallies(vote.round, vs),
        !voted(before.votes@, vote.validator_address),
        weight == power_in(vs, vote.validator_address),
        after.votes@ == before.votes@.push(vote),
        after.values_weights.wf(),
        after.addresses_weights.wf(),
        forall|v: NilOrVal<Ctx::ValueId>| #[trigger]
            after.values_weights.weight(v) == if v == vote.value {
                before.values_weights.weight(v) + weight as nat
            } else {
                before.values_weights.weight(v)
            },
        after.values_weights.total() == before.values_weights.total() + weight,
        after.addresses_weights.weights@ == weighed_once(
            before.addresses_weights.weights@,
            vote.validator_address,
            weight,
        ),
    ensures
        after.tallies(vote.round, vs),
{
    let a = vote.validator_address;
    let votes = after.votes@;
    assert(votes.drop_last() =~= before.votes@);
    assert forall|i: int, j: int|
        #![trigger votes[i], votes[j]]
        0 <= i < j < votes.len() implies votes[i].validator_address != votes[j].validator_address by {
        assert(votes[i] == before.votes@[i]);
        if j < before.votes@.len() {
            assert(votes[j] == before.votes@[j]);
        }
    }
    assert forall|i: int|
        #![trigger votes[i]]
        0 <= i < votes.len() implies votes[i].round == vote.round by {
        if i < before.votes@.len() {
            assert(votes[i] == before.votes@[i]);
        }
    }
    assert forall|v: NilOrVal<Ctx::ValueId>| #[trigger] after.values_weights.weight(v) == weight_of::<Ctx>(
        backers(votes, v),
        vs,
    ) by {
        let s = backers(before.votes@, v);
        assert(s.push(a).drop_last() =~= s);
        assert(before.values_weights.weight(v) == weight_of::<Ctx>(s, vs));
    }
    let s = casters(before.votes@);
    assert(s.push(a).drop_last() =~= s);
    let ws = before.addresses_weights.weights@;
    let key = |e: (Ctx::Address, Weight)| e.0;
    let names = ws.map_values(key);
    if listed(ws, a) {
        let i = choose|i: int| 0 <= i < ws.len() && (#[trigger] ws[i]).0 == a;
        assert(names[i] == a);
        lemma_casters(before.votes@);
        assert(before.votes@[i].validator_address == a);
    }
    assert(ws.push((a, weight)).drop_last() =~= ws);
    assert(ws.push((a, weight)).map_values(key) =~= names.push(a));
}

/// A validator's first vote fits into the tally of the round.
proof fn lemma_room<Ctx: Context>(
    p: PerRound<Ctx>,
    vote: SignedVote<Ctx>,
    vs: Seq<Validator<Ctx>>,
    weight: Weight,
)
    requires
        p.tallies(vote.round, vs),
        !voted(p.votes@, vote.validator_address),
        distinct_addresses(vs),
        total_power(vs) <= u64::MAX,
        weight == power_in(vs, vote.validator_address),
    ensures
        p.values_weights.total() + weight <= total_power(vs),
{
    let s = casters(p.votes@);
    let a = vote.validator_address;
    lemma_casters(p.votes@);
    assert(s.push(a).no_duplicates()) by {
        assert forall|i: int, j: int| 0 <= i < s.push(a).len() && 0 <= j < s.push(a).len() && i != j implies s.push(
            a,
        )[i] != s.push(a)[j] by {
            if i < s.len() {
                assert(s[i] == p.votes@[i].validator_address);
            }
            if j < s.len() {
                assert(s[j] == p.votes@[j].validator_address);
            }
        }
    }
    lemma_weight_bounded::<Ctx>(s.push(a), vs);
    assert(s.push(a).drop_last() =~= s);
}

/// Whether `values` holds `value`.
fn holds<V: Ident>(values: &Vec<V>, value: &V) -> (r: bool)
    ensures
        r == values@.contains(*value),
{
    let mut i: usize = 0;
    while i < values.len()
        invariant
            i <= values@.len(),
            forall|j: int| 0 <= j < i ==> #[trigger] values@[j] != *value,
        decreases values@.len() - i,
    {
        if values[i].same(value) {
            return true;
        }
        i = i + 1;
    }
    false
}

/// Tallies the single vote step of Fast Tendermint and reports both thresholds.
pub struct FastVoteKeeper<Ctx: Context> {
    pub validator_set: ValidatorSet<Ctx>,
    pub threshold_params: FastThresholdParams,
    pub per_round: OrdMap<Round, PerRound<Ctx>>,
    pub evidence: EvidenceMap<Ctx>,
}

impl<Ctx: Context> View for FastVoteKeeper<Ctx> {
    type V = FastKeeperView<Ctx>;

    open spec fn view(&self) -> FastKeeperView<Ctx> {
        FastKeeperView {
            rounds: self.per_round@.map_values(|p: PerRound<Ctx>| p.known()),
            evidence: self.evidence@,
        }
    }
}

impl<Ctx: Context> FastVoteKeeper<Ctx> {
    /// Every tally is that of the recorded votes.
    pub open spec fn wf(self) -> bool {
        &&& self.validator_set.wf()
        &&& self.per_round.wf()
        &&& self.evidence.wf()
        &&& forall|r: Round| #[trigger]
            self.per_round@.contains_key(r) ==> self.per_round@[r].tallies(
                r,
                self.validator_set.validators@,
            )
    }

    /// Whether thresholds of the total voting power can be computed.
    pub open spec fn computable(self) -> bool {
        self.threshold_params.fits(self.validator_set.total())
    }

    /// A keeper without votes.
    pub fn new(validator_set: ValidatorSet<Ctx>, threshold_params: FastThresholdParams) -> (r: Self)
        requires
            validator_set.wf(),
        ensures
            r.wf(),
            r.validator_set == validator_set,
            r.threshold_params == threshold_params,
            r@.rounds == Map::<Round, FastRoundView<Ctx>>::empty(),
            r@.evidence == Map::<Ctx::Address, Seq<DoubleVote<Ctx>>>::empty(),
    {
        let r = FastVoteKeeper {
            validator_set,
            threshold_params,
            per_round: OrdMap::new(),
            evidence: EvidenceMap::new(),
        };
        assert(r@.rounds =~= Map::<Round, FastRoundView<Ctx>>::empty());
        r
    }

    /// The total voting power of the validator set.
    pub fn total_weight(&self) -> (r: Weight)
        requires
            self.wf(),
        ensures
            r == self.validator_set.total(),
    {
        self.validator_set.total_voting_power()
    }

    /// The recorded equivocations.
    pub fn evidence(&self) -> (r: &EvidenceMap<Ctx>)
        requires
            self.wf(),
        ensures
            *r == self.evidence,
            r.wf(),
            r@ == self@.evidence,
    {
        &self.evidence
    }

    /// Apply one vote and report every threshold that it newly crosses.
    ///
    /// A vote from an unknown validator is discarded. A second, conflicting
    /// vote of a validator becomes evidence and is not tallied, so
    /// equivocation cannot make a quorum.
    pub fn apply_vote(&mut self, signed_vote: SignedVote<Ctx>) -> (r: Vec<Output<Ctx::ValueId>>)
        requires
            old(self).wf(),
            old(self).computable(),
        ensures
            final(self).wf(),
            final(self).validator_set == old(self).validator_set,
            final(self).threshold_params == old(self).threshold_params,
            (final(self)@, r@) == old(self)@.apply(
                signed_vote,
                old(self).threshold_params,
                old(self).validator_set.validators@,
            ),
    {
        let ghost before = *self;
        let ghost vs = self.validator_set.validators@;
        let mut outputs: Vec<Output<Ctx::ValueId>> = Vec::new();
        assert(outputs@ =~= Seq::<Output<Ctx::ValueId>>::empty());
        let weight: u64 = match self.validator_set.get_by_address(&signed_vote.validator_address) {
            Some(validator) => validator.voting_power,
            None => {
                return outputs;
            },
        };
        let round = signed_vote.round;
        let value = signed_vote.value.dup();
        let total_weight: u64 = self.total_weight();
        let params = self.threshold_params;
        let mut per_round = match self.per_round.remove(&round) {
            Some(p) => p,
            None => PerRound::new(Ghost(round), Ghost(vs)),
        };
        let ghost entry = per_round;
        assert(entry.known() == before@.at(round));
        match per_round.find_vote(&signed_vote.validator_address) {
            Some(i) => {
                assert(before.per_round@.contains_key(round));
                if !per_round.votes[i].value.same(&value) {
                    let existing = per_round.votes[i].dup();
                    self.evidence.add(existing, signed_vote);
                }
                self.per_round.insert(round, per_round);
                proof {
                    self.lemma_reinserted(before, round, per_round);
                    assert(before@.rounds.insert(round, entry.known()) =~= before@.rounds);
                }
                return outputs;
            },
            None => {},
        }
        proof {
            lemma_room(entry, signed_vote, vs, weight);
        }
        let ghost counted = FastRoundView { votes: entry.votes@.push(signed_vote), ..entry.known() };
        per_round.addresses_weights.set_once(&signed_vote.validator_address, weight);
        per_round.values_weights.add(value.dup(), weight);
        per_round.votes.push(signed_vote);
        proof {
            lemma_count_vote(entry, per_round, signed_vote, vs, weight);
            assert(per_round.known() == counted);
            lemma_casters(per_round.votes@);
            lemma_weight_bounded::<Ctx>(casters(per_round.votes@), vs);
        }
        let ghost crossed = counted.crossed(value, params, vs);
        match &value {
            NilOrVal::Val(id) => {
                let for_value: u64 = per_round.values_weights.get(&value);
                if params.quorum.is_met(for_value, total_weight) && !holds(&per_round.vote_quorum, id) {
                    per_round.vote_quorum.push(id.dup());
                    outputs.push(Output::VoteQuorumValue(id.dup()));
                }
                if params.decision.is_met(for_value, total_weight) && !holds(
                    &per_round.decision_quorum,
                    id,
                ) {
                    per_round.decision_quorum.push(id.dup());
                    outputs.push(Output::DecisionQuorumValue(id.dup()));
                }
            },
            NilOrVal::Nil => {},
        }
        if params.decision.is_met(per_round.addresses_weights.sum(), total_weight)
            && !per_round.quorum_any {
            per_round.quorum_any = true;
            outputs.push(Output::QuorumAny);
        }
        assert(outputs@ =~= reports(value, crossed));
        assert(per_round.known() == counted.latched(value, crossed));
        self.per_round.insert(round, per_round);
        proof {
            self.lemma_reinserted(before, round, per_round);
        }
        outputs
    }

    /// Putting back the entry of a round that was taken out for an update.
    proof fn lemma_reinserted(self, before: Self, r: Round, p: PerRound<Ctx>)
        requires
            before.wf(),
            p.tallies(r, before.validator_set.validators@),
            self.validator_set == before.validator_set,
            self.threshold_params == before.threshold_params,
            self.evidence.wf(),
            self.per_round.wf(),
            self.per_round@ == before.per_round@.remove(r).insert(r, p),
        ensures
            self.wf(),
            self@.rounds == before@.rounds.insert(r, p.known()),
    {
        assert(self@.rounds =~= before@.rounds.insert(r, p.known()));
        assert forall|q: Round| #[trigger] self.per_round@.contains_key(q) implies self.per_round@[q].tallies(
            q,
            self.validator_set.validators@,
        ) by {
            if q != r {
                assert(before.per_round@.contains_key(q));
            }
        }
    }

    /// Whether `2f+1` votes for `value_id` were seen in `round`.
    pub fn has_vote_quorum(&self, round: Round, value_id: &Ctx::ValueId) -> (r: bool)
        requires
            self.wf(),
            self.computable(),
        ensures
            r == (self@.rounds.contains_key(round) && exceeds(
                self.threshold_params.quorum,
                self@.rounds[round].weight(NilOrVal::Val(*value_id), self.validator_set.validators@),
                self.validator_set.total(),
            )),
    {
        match self.weight_for(round, value_id) {
            Some(w) => self.threshold_params.quorum.is_met(w, self.total_weight()),
            None => false,
        }
    }

    /// Whether `n - f` votes for `value_id` were seen in `round`.
    pub fn has_decision_quorum(&self, round: Round, value_id: &Ctx::ValueId) -> (r: bool)
        requires
            self.wf(),
            self.computable(),
        ensures
            r == (self@.rounds.contains_key(round) && exceeds(
                self.threshold_params.decision,
                self@.rounds[round].weight(NilOrVal::Val(*value_id), self.validator_set.validators@),
                self.validator_set.total(),
            )),
    {
        match self.weight_for(round, value_id) {
            Some(w) => self.threshold_params.decision.is_met(w, self.total_weight()),
            None => false,
        }
    }

    /// The weight of the votes for `value_id` in `round`, if it has votes.
    fn weight_for(&self, round: Round, value_id: &Ctx::ValueId) -> (r: Option<Weight>)
        requires
            self.wf(),
        ensures
            match r {
                Some(w) => self@.rounds.contains_key(round) && w == self@.rounds[round].weight(
                    NilOrVal::Val(*value_id),
                    self.validator_set.validators@,
                ),
                None => !self@.rounds.contains_key(round),
            },
    {
        match self.per_round.get(&round) {
            Some(p) => Some(p.values_weights.get(&NilOrVal::Val(value_id.dup()))),
            None => None,
        }
    }

    /// Drop the votes of the rounds before `min_round`. Evidence is never
    /// dropped.
    pub fn prune_votes(&mut self, min_round: Round)
        requires
            old(self).wf(),
        ensures
            final(self).wf(),
            final(self).validator_set == old(self).validator_set,
            final(self).threshold_params == old(self).threshold_params,
            final(self)@ == old(self)@.pruned(min_round),
    {
        let ghost before = *self;
        self.per_round.drop_below(&min_round);
        proof {
            assert(self@.rounds =~= before@.pruned(min_round).rounds);
            assert forall|q: Round| #[trigger] self.per_round@.contains_key(q) implies self.per_round@[q].tallies(
                q,
                self.validator_set.validators@,
            ) by {
                assert(before.per_round@.contains_key(q));
            }
        }
    }
}

} // verus!
