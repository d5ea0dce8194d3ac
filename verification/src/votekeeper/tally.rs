//! Weights accumulated per value and per voter.

use vstd::prelude::*;

use crate::ident::Ident;
use crate::types::{exceeds, Context, NilOrVal, SignedVote, ThresholdParam, VoteType, Weight};

verus! {

/// Whether some entry of `s` has the key `k`.
pub open spec fn listed<K>(s: Seq<(K, Weight)>, k: K) -> bool {
    exists|i: int| 0 <= i < s.len() && (#[trigger] s[i]).0 == k
}

/// The weight of `s` under the key `k`, 0 if there is none.
pub open spec fn weight_under<K>(s: Seq<(K, Weight)>, k: K) -> nat {
    if listed(s, k) {
        s[choose|i: int| 0 <= i < s.len() && (#[trigger] s[i]).0 == k].1 as nat
    } else {
        0
    }
}

/// The sum of all weights of `s`.
pub open spec fn weight_total<K>(s: Seq<(K, Weight)>) -> nat
    decreases s.len(),
{
    if s.len() == 0 {
        0
    } else {
        weight_total(s.drop_last()) + s.last().1 as nat
    }
}

/// Whether no key occurs twice in `s`.
pub open spec fn distinct_keys<K>(s: Seq<(K, Weight)>) -> bool {
    forall|i: int, j: int| #![trigger s[i], s[j]] 0 <= i < j < s.len() ==> s[i].0 != s[j].0
}

proof fn lemma_total_update<K>(s: Seq<(K, Weight)>, i: int, e: (K, Weight))
    requires
        0 <= i < s.len(),
    ensures
        weight_total(s.update(i, e)) + s[i].1 == weight_total(s) + e.1,
    decreases s.len(),
{
    let t = s.update(i, e);
    if i == s.len() - 1 {
        assert(t.drop_last() =~= s.drop_last());
    } else {
        lemma_total_update(s.drop_last(), i, e);
        assert(t.drop_last() =~= s.drop_last().update(i, e));
    }
}

proof fn lemma_total_prefix<K>(s: Seq<(K, Weight)>, n: int)
    requires
        0 <= n <= s.len(),
    ensures
        weight_total(s.subrange(0, n)) <= weight_total(s),
    decreases s.len() - n,
{
    if n == s.len() {
        assert(s.subrange(0, n) =~= s);
    } else {
        lemma_total_prefix(s, n + 1);
        assert(s.subrange(0, n + 1).drop_last() =~= s.subrange(0, n));
    }
}

/// The weight under a key is at most the sum.
pub proof fn lemma_under_total<K>(s: Seq<(K, Weight)>, k: K)
    ensures
        weight_under(s, k) <= weight_total(s),
{
    if listed(s, k) {
        let i = choose|i: int| 0 <= i < s.len() && (#[trigger] s[i]).0 == k;
        lemma_total_prefix(s, i + 1);
        assert(s.subrange(0, i + 1).last() == s[i]);
    }
}

proof fn lemma_under_at<K>(s: Seq<(K, Weight)>, i: int)
    requires
        distinct_keys(s),
        0 <= i < s.len(),
    ensures
        listed(s, s[i].0),
        weight_under(s, s[i].0) == s[i].1,
{
    let j = choose|j: int| 0 <= j < s.len() && (#[trigger] s[j]).0 == s[i].0;
    assert(i == j);
}

/// The index of the entry of `s` with the key `k`.
fn position<K: Ident>(s: &Vec<(K, Weight)>, k: &K) -> (r: Option<usize>)
    ensures
        match r {
            Some(i) => i < s@.len() && s@[i as int].0 == *k,
            None => !listed(s@, *k),
        },
{
    let mut i: usize = 0;
    while i < s.len()
        invariant
            i <= s@.len(),
            forall|j: int| 0 <= j < i ==> (#[trigger] s@[j]).0 != *k,
        decreases s@.len() - i,
    {
        if s[i].0.same(k) {
            return Some(i);
        }
        i = i + 1;
    }
    None
}

/// The sum of all weights of `s`.
fn sum_weights<K>(s: &Vec<(K, Weight)>) -> (r: Weight)
    requires
        weight_total(s@) <= u64::MAX,
    ensures
        r == weight_total(s@),
{
    let mut total: u64 = 0;
    let mut i: usize = 0;
    assert(s@.subrange(0, 0) =~= Seq::<(K, Weight)>::empty());
    while i < s.len()
        invariant
            weight_total(s@) <= u64::MAX,
            i <= s@.len(),
            total == weight_total(s@.subrange(0, i as int)),
        decreases s@.len() - i,
    {
        proof {
            assert(s@.subrange(0, i + 1).drop_last() =~= s@.subrange(0, i as int));
            lemma_total_prefix(s@, i + 1);
        }
        total = total + s[i].1;
        i = i + 1;
    }
    assert(s@.subrange(0, i as int) =~= s@);
    total
}

/// Weights accumulated per value.
pub struct ValuesWeights<V> {
    pub weights: Vec<(V, Weight)>,
}

impl<V: Ident> ValuesWeights<V> {
    /// Every value occurs once and the sum is a `u64`.
    pub open spec fn wf(self) -> bool {
        distinct_keys(self.weights@) && weight_total(self.weights@) <= u64::MAX
    }

    /// The weight accumulated for `value`.
    pub open spec fn weight(self, value: V) -> nat {
        weight_under(self.weights@, value)
    }

    /// The weight accumulated for all values.
    pub open spec fn total(self) -> nat {
        weight_total(self.weights@)
    }

    /// No weight for any value.
    pub fn new() -> (r: Self)
        ensures
            r.wf(),
            r.weights@.len() == 0,
            r.total() == 0,
            forall|v: V| r.weight(v) == 0,
    {
        ValuesWeights { weights: Vec::new() }
    }

    /// Add `weight` to what `value` has, and return the new weight of `value`.
    pub fn add(&mut self, value: V, weight: Weight) -> (r: Weight)
        requires
            old(self).wf(),
            old(self).total() + weight <= u64::MAX,
        ensures
            final(self).wf(),
            r == old(self).weight(value) + weight,
            forall|v: V| #[trigger]
                final(self).weight(v) == if v == value {
                    old(self).weight(v) + weight as nat
                } else {
                    old(self).weight(v)
                },
            final(self).total() == old(self).total() + weight,
    {
        let ghost before = self.weights@;
        proof {
            lemma_under_total(before, value);
        }
        match position(&self.weights, &value) {
            Some(i) => {
                proof {
                    lemma_under_at(before, i as int);
                }
                let w: u64 = self.weights[i].1 + weight;
                let ghost e = (value, w);
                self.weights.set(i, (value, w));
                proof {
                    let after = self.weights@;
                    lemma_total_update(before, i as int, e);
                    assert forall|v: V| weight_under(after, v) == #[trigger] weight_under(before, v)
                        + if v == value { weight as nat } else { 0 } by {
                        if listed(before, v) {
                            let j = choose|j: int| 0 <= j < before.len() && (#[trigger] before[j]).0 == v;
                            assert(after[j].0 == v);
                            lemma_under_at(after, j);
                            lemma_under_at(before, j);
                        } else if listed(after, v) {
                            let j = choose|j: int| 0 <= j < after.len() && (#[trigger] after[j]).0 == v;
                            assert(before[j].0 == v);
                        }
                    }
                    assert forall|v: V| #[trigger] self.weight(v) == if v == value {
                        old(self).weight(v) + weight as nat
                    } else {
                        old(self).weight(v)
                    } by {
                        assert(weight_under(after, v) == weight_under(before, v) + if v == value {
                            weight as nat
                        } else {
                            0
                        });
                    }
                }
                w
            },
            None => {
                let ghost e = (value, weight);
                self.weights.push((value, weight));
                proof {
                    let after = self.weights@;
                    assert(after.drop_last() =~= before);
                    assert forall|v: V| #[trigger] self.weight(v) == if v == value {
                        old(self).weight(v) + weight as nat
                    } else {
                        old(self).weight(v)
                    } by {
                        if v == value {
                            assert(after[before.len() as int].0 == v);
                            lemma_under_at(after, before.len() as int);
                        } else if listed(before, v) {
                            let j = choose|j: int| 0 <= j < before.len() && (#[trigger] before[j]).0 == v;
                            assert(after[j].0 == v);
                            lemma_under_at(after, j);
                            lemma_under_at(before, j);
                        } else if listed(after, v) {
                            let j = choose|j: int| 0 <= j < after.len() && (#[trigger] after[j]).0 == v;
                            assert(before[j].0 == v);
                        }
                    }
                }
                weight
            },
        }
    }

    /// The weight accumulated for `value`.
    pub fn get(&self, value: &V) -> (r: Weight)
        requires
            self.wf(),
        ensures
            r == self.weight(*value),
    {
        match position(&self.weights, value) {
            Some(i) => {
                proof {
                    lemma_under_at(self.weights@, i as int);
                }
                self.weights[i].1
            },
            None => 0,
        }
    }

    /// The weight accumulated for all values.
    pub fn sum(&self) -> (r: Weight)
        requires
            self.wf(),
        ensures
            r == self.total(),
    {
        sum_weights(&self.weights)
    }
}

/// The weight of each voter, counted once.
pub struct RoundWeights<A> {
    pub weights: Vec<(A, Weight)>,
}

/// `s` with `weight` for `address`, unless the address has a weight already.
pub open spec fn weighed_once<A>(s: Seq<(A, Weight)>, address: A, weight: Weight) -> Seq<(A, Weight)> {
    if listed(s, address) {
        s
    } else {
        s.push((address, weight))
    }
}

impl<A: Ident> RoundWeights<A> {
    /// Every voter occurs once.
    pub open spec fn wf(self) -> bool {
        distinct_keys(self.weights@)
    }

    /// The weight of `address`.
    pub open spec fn weight(self, address: A) -> nat {
        weight_under(self.weights@, address)
    }

    /// The weight of all voters.
    pub open spec fn total(self) -> nat {
        weight_total(self.weights@)
    }

    /// No voter.
    pub fn new() -> (r: Self)
        ensures
            r.wf(),
            r.weights@ == Seq::<(A, Weight)>::empty(),
            r.total() == 0,
    {
        let r = RoundWeights { weights: Vec::new() };
        assert(r.weights@ =~= Seq::<(A, Weight)>::empty());
        r
    }

    /// Give `address` the weight `weight`, unless it has one already.
    pub fn set_once(&mut self, address: &A, weight: Weight)
        requires
            old(self).wf(),
        ensures
            final(self).wf(),
            final(self).weights@ == weighed_once(old(self).weights@, *address, weight),
    {
        if position(&self.weights, address).is_none() {
            self.weights.push((address.dup(), weight));
        }
    }

    /// The weight of `address`.
    pub fn get(&self, address: &A) -> (r: Weight)
        requires
            self.wf(),
        ensures
            r == self.weight(*address),
    {
        match position(&self.weights, address) {
            Some(i) => {
                proof {
                    lemma_under_at(self.weights@, i as int);
                }
                self.weights[i].1
            },
            None => 0,
        }
    }

    /// The weight of all voters.
    pub fn sum(&self) -> (r: Weight)
        requires
            self.total() <= u64::MAX,
        ensures
            r == self.total(),
    {
        sum_weights(&self.weights)
    }
}

/// The votes of one type in one round.
pub struct VoteCount<Ctx: Context> {
    /// Weight per voted value, with nil as a value of its own.
    pub values_weights: ValuesWeights<NilOrVal<Ctx::ValueId>>,
    /// The validators that have been counted.
    pub validator_addresses: Vec<Ctx::Address>,
}

impl<Ctx: Context> VoteCount<Ctx> {
    /// The accumulated weights are well formed.
    pub open spec fn wf(self) -> bool {
        self.values_weights.wf()
    }

    /// No votes.
    pub fn new() -> (r: Self)
        ensures
            r.wf(),
            r.validator_addresses@ == Seq::<Ctx::Address>::empty(),
            r.values_weights.total() == 0,
            forall|v: NilOrVal<Ctx::ValueId>| r.values_weights.weight(v) == 0,
    {
        let r = VoteCount { values_weights: ValuesWeights::new(), validator_addresses: Vec::new() };
        assert(r.validator_addresses@ =~= Seq::<Ctx::Address>::empty());
        r
    }

    /// Count the vote of `address` for `value`, unless that validator was
    /// counted before, and return the weight of `value`.
    pub fn add(
        &mut self,
        address: &Ctx::Address,
        value: &NilOrVal<Ctx::ValueId>,
        weight: Weight,
    ) -> (r: Weight)
        requires
            old(self).wf(),
            !old(self).validator_addresses@.contains(*address) ==> old(self).values_weights.total() + weight
                <= u64::MAX,
        ensures
            final(self).wf(),
            r == final(self).values_weights.weight(*value),
            old(self).validator_addresses@.contains(*address) ==> *final(self) == *old(self),
            !old(self).validator_addresses@.contains(*address) ==> {
                &&& final(self).validator_addresses@ == old(self).validator_addresses@.push(*address)
                &&& final(self).values_weights.total() == old(self).values_weights.total() + weight
                &&& forall|v: NilOrVal<Ctx::ValueId>| #[trigger]
                    final(self).values_weights.weight(v) == if v == *value {
                        old(self).values_weights.weight(v) + weight as nat
                    } else {
                        old(self).values_weights.weight(v)
                    }
            },
    {
        let mut i: usize = 0;
        while i < self.validator_addresses.len()
            invariant
                *self == *old(self),
                self.wf(),
                i <= self.validator_addresses@.len(),
                forall|j: int| 0 <= j < i ==> #[trigger] self.validator_addresses@[j] != *address,
            decreases self.validator_addresses@.len() - i,
        {
            if self.validator_addresses[i].same(address) {
                return self.values_weights.get(value);
            }
            i = i + 1;
        }
        assert(!self.validator_addresses@.contains(*address));
        self.validator_addresses.push(address.dup());
        self.values_weights.add(value.dup(), weight)
    }
}

/// A threshold that the votes of a round can reach.
#[derive(Debug, PartialEq, Eq)]
pub enum Threshold<V> {
    /// No quorum.
    Unreached,
    /// A quorum of votes for anything.
    Any,
    /// A quorum of votes for nil.
    Nil,
    /// A quorum of votes for this value.
    Value(V),
}

/// The votes of both types in one round.
pub struct RoundVotes<Ctx: Context> {
    pub prevotes: VoteCount<Ctx>,
    pub precommits: VoteCount<Ctx>,
}

impl<Ctx: Context> RoundVotes<Ctx> {
    /// Both counts are well formed.
    pub open spec fn wf(self) -> bool {
        self.prevotes.wf() && self.precommits.wf()
    }

    /// The count of the votes of type `t`.
    pub open spec fn count(self, t: VoteType) -> VoteCount<Ctx> {
        match t {
            VoteType::Prevote => self.prevotes,
            VoteType::Precommit => self.precommits,
        }
    }

    /// The weight of the votes of type `t` for `value`.
    pub open spec fn weight(self, t: VoteType, value: NilOrVal<Ctx::ValueId>) -> nat {
        self.count(t).values_weights.weight(value)
    }

    /// The weight of all votes of type `t`.
    pub open spec fn total(self, t: VoteType) -> nat {
        self.count(t).values_weights.total()
    }

    /// Whether a vote of type `t` of `address` was counted.
    pub open spec fn counted(self, t: VoteType, address: Ctx::Address) -> bool {
        self.count(t).validator_addresses@.contains(address)
    }

    /// Whether `threshold` is met by the votes of type `t`.
    pub open spec fn meets(
        self,
        t: VoteType,
        threshold: Threshold<Ctx::ValueId>,
        param: ThresholdParam,
        total: nat,
    ) -> bool {
        match threshold {
            Threshold::Value(v) => exceeds(param, self.weight(t, NilOrVal::Val(v)), total),
            Threshold::Nil => exceeds(param, self.weight(t, NilOrVal::Nil), total),
            Threshold::Any => exceeds(param, self.total(t), total),
            Threshold::Unreached => false,
        }
    }

    /// No votes.
    pub fn new() -> (r: Self)
        ensures
            r.wf(),
            forall|t: VoteType| (#[trigger] r.count(t)).validator_addresses@.len() == 0,
            forall|t: VoteType| #[trigger] r.total(t) == 0,
            forall|t: VoteType, v: NilOrVal<Ctx::ValueId>| #[trigger] r.weight(t, v) == 0,
    {
        RoundVotes { prevotes: VoteCount::new(), precommits: VoteCount::new() }
    }

    /// Count `vote` with `weight`, unless its validator was counted for its
    /// type before, and return the weight of its value.
    pub fn add_vote(&mut self, vote: &SignedVote<Ctx>, weight: Weight) -> (r: Weight)
        requires
            old(self).wf(),
            !old(self).counted(vote.vote_type, vote.validator_address) ==> old(self).total(
                vote.vote_type,
            ) + weight <= u64::MAX,
        ensures
            final(self).wf(),
            r == final(self).weight(vote.vote_type, vote.value),
            forall|t: VoteType| t != vote.vote_type ==> #[trigger] final(self).count(t) == old(self).count(t),
            old(self).counted(vote.vote_type, vote.validator_address) ==> *final(self) == *old(self),
            !old(self).counted(vote.vote_type, vote.validator_address) ==> {
                &&& final(self).count(vote.vote_type).validator_addresses@ == old(self).count(
                    vote.vote_type,
                ).validator_addresses@.push(vote.validator_address)
                &&& final(self).total(vote.vote_type) == old(self).total(vote.vote_type) + weight
                &&& forall|v: NilOrVal<Ctx::ValueId>| #[trigger]
                    final(self).weight(vote.vote_type, v) == if v == vote.value {
                        old(self).weight(vote.vote_type, v) + weight as nat
                    } else {
                        old(self).weight(vote.vote_type, v)
                    }
            },
    {
        match vote.vote_type {
            VoteType::Prevote => self.prevotes.add(&vote.validator_address, &vote.value, weight),
            VoteType::Precommit => self.precommits.add(&vote.validator_address, &vote.value, weight),
        }
    }

    /// The weight of the votes of type `vote_type` for `value`.
    pub fn get_weight(&self, vote_type: VoteType, value: &NilOrVal<Ctx::ValueId>) -> (r: Weight)
        requires
            self.wf(),
        ensures
            r == self.weight(vote_type, *value),
    {
        match vote_type {
            VoteType::Prevote => self.prevotes.values_weights.get(value),
            VoteType::Precommit => self.precommits.values_weights.get(value),
        }
    }

    /// The weight of all votes of type `vote_type`.
    pub fn weight_sum(&self, vote_type: VoteType) -> (r: Weight)
        requires
            self.wf(),
        ensures
            r == self.total(vote_type),
    {
        match vote_type {
            VoteType::Prevote => self.prevotes.values_weights.sum(),
            VoteType::Precommit => self.precommits.values_weights.sum(),
        }
    }

    /// Whether `threshold` is met by the votes of type `vote_type`.
    pub fn is_threshold_met(
        &self,
        vote_type: VoteType,
        threshold: Threshold<Ctx::ValueId>,
        param: ThresholdParam,
        total_weight: Weight,
    ) -> (r: bool)
        requires
            self.wf(),
            total_weight * param.numerator <= u64::MAX,
        ensures
            r == self.meets(vote_type, threshold, param, total_weight as nat),
    {
        match threshold {
            Threshold::Value(v) => {
                let weight: u64 = self.get_weight(vote_type, &NilOrVal::Val(v));
                param.is_met(weight, total_weight)
            },
            Threshold::Nil => {
                let weight: u64 = self.get_weight(vote_type, &NilOrVal::Nil);
                param.is_met(weight, total_weight)
            },
            Threshold::Any => {
                let weight: u64 = self.weight_sum(vote_type);
                param.is_met(weight, total_weight)
            },
            Threshold::Unreached => false,
        }
    }
}

} // verus!
