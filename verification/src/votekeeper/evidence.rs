//! Evidence of equivocation.

use vstd::prelude::*;

use crate::ident::{Ident, OrdMap};
use crate::types::{Context, SignedVote};

verus! {

/// How many distinct equivocation pairs are kept per validator.
///
/// A few pairs suffice to prove equivocation; further pairs from the same
/// validator are dropped, so what one validator can make us store is bounded.
pub const MAX_EVIDENCE_PER_VALIDATOR: usize = 3;

/// Two votes of one validator that contradict each other.
pub type DoubleVote<Ctx> = (SignedVote<Ctx>, SignedVote<Ctx>);

/// Whether `pairs` holds the pair of `e` and `c`, in either order.
pub open spec fn holds_pair<Ctx: Context>(
    pairs: Seq<DoubleVote<Ctx>>,
    e: SignedVote<Ctx>,
    c: SignedVote<Ctx>,
) -> bool {
    exists|i: int|
        0 <= i < pairs.len() && ((#[trigger] pairs[i]) == (e, c) || pairs[i] == (c, e))
}

/// The evidence `m` after the pair of `e` and `c` was added.
pub open spec fn with_evidence<Ctx: Context>(
    m: Map<Ctx::Address, Seq<DoubleVote<Ctx>>>,
    e: SignedVote<Ctx>,
    c: SignedVote<Ctx>,
) -> Map<Ctx::Address, Seq<DoubleVote<Ctx>>> {
    let a = c.validator_address;
    if m.contains_key(a) {
        if holds_pair(m[a], e, c) || m[a].len() >= MAX_EVIDENCE_PER_VALIDATOR {
            m
        } else {
            m.insert(a, m[a].push((e, c)))
        }
    } else {
        m.insert(a, seq![(e, c)])
    }
}

/// The recorded pairs of contradicting votes, by validator.
pub struct EvidenceMap<Ctx: Context> {
    pub map: OrdMap<Ctx::Address, Vec<DoubleVote<Ctx>>>,
}

impl<Ctx: Context> View for EvidenceMap<Ctx> {
    type V = Map<Ctx::Address, Seq<DoubleVote<Ctx>>>;

    open spec fn view(&self) -> Map<Ctx::Address, Seq<DoubleVote<Ctx>>> {
        self.map@.map_values(|v: Vec<DoubleVote<Ctx>>| v@)
    }
}

impl<Ctx: Context> EvidenceMap<Ctx> {
    /// Every listed validator has at least one pair and at most
    /// [`MAX_EVIDENCE_PER_VALIDATOR`].
    pub open spec fn wf(self) -> bool {
        &&& self.map.wf()
        &&& forall|a: Ctx::Address| #[trigger]
            self@.contains_key(a) ==> 1 <= self@[a].len() <= MAX_EVIDENCE_PER_VALIDATOR
    }

    /// No evidence.
    pub fn new() -> (r: Self)
        ensures
            r.wf(),
            r@ == Map::<Ctx::Address, Seq<DoubleVote<Ctx>>>::empty(),
    {
        let r = EvidenceMap { map: OrdMap::new() };
        assert(r@ =~= Map::<Ctx::Address, Seq<DoubleVote<Ctx>>>::empty());
        r
    }

    /// Whether there is no evidence.
    pub fn is_empty(&self) -> (r: bool)
        requires
            self.wf(),
        ensures
            r == (self@ == Map::<Ctx::Address, Seq<DoubleVote<Ctx>>>::empty()),
    {
        proof {
            if self.map@ == Map::<Ctx::Address, Vec<DoubleVote<Ctx>>>::empty() {
                assert(self@ =~= Map::<Ctx::Address, Seq<DoubleVote<Ctx>>>::empty());
            }
            if self@ == Map::<Ctx::Address, Seq<DoubleVote<Ctx>>>::empty() {
                assert forall|a: Ctx::Address| !self.map@.contains_key(a) by {
                    assert(!self@.contains_key(a));
                }
                assert(self.map@ =~= Map::<Ctx::Address, Vec<DoubleVote<Ctx>>>::empty());
            }
        }
        self.map.is_empty()
    }

    /// The pairs recorded for `address`, if any.
    pub fn get(&self, address: &Ctx::Address) -> (r: Option<&Vec<DoubleVote<Ctx>>>)
        requires
            self.wf(),
        ensures
            match r {
                Some(v) => self@.contains_key(*address) && v@ == self@[*address],
                None => !self@.contains_key(*address),
            },
    {
        self.map.get(address)
    }

    /// Record two votes of one validator that contradict each other.
    ///
    /// A pair that is recorded already, in either order, is not recorded
    /// again, and a validator with [`MAX_EVIDENCE_PER_VALIDATOR`] pairs gets
    /// no further one.
    pub fn add(&mut self, existing: SignedVote<Ctx>, conflicting: SignedVote<Ctx>)
        requires
            old(self).wf(),
            existing.validator_address == conflicting.validator_address,
        ensures
            final(self).wf(),
            final(self)@ == with_evidence(old(self)@, existing, conflicting),
    {
        let ghost before = *self;
        let address = conflicting.validator_address.dup();
        match self.map.remove(&address) {
            Some(mut pairs) => {
                assert(before@.contains_key(address));
                assert(before@[address] == pairs@);
                let mut known = false;
                let mut i: usize = 0;
                while i < pairs.len()
                    invariant
                        i <= pairs@.len(),
                        known == exists|j: int|
                            0 <= j < i && ((#[trigger] pairs@[j]) == (existing, conflicting)
                                || pairs@[j] == (conflicting, existing)),
                    decreases pairs@.len() - i,
                {
                    if (pairs[i].0.same(&existing) && pairs[i].1.same(&conflicting)) || (
                    pairs[i].0.same(&conflicting) && pairs[i].1.same(&existing)) {
                        known = true;
                    }
                    i = i + 1;
                }
                assert(known == holds_pair(pairs@, existing, conflicting));
                if !known && pairs.len() < MAX_EVIDENCE_PER_VALIDATOR {
                    pairs.push((existing, conflicting));
                }
                let ghost after_pairs = pairs@;
                self.map.insert(address, pairs);
                proof {
                    let want = with_evidence(before@, existing, conflicting);
                    assert(self@ =~= want);
                    assert forall|a: Ctx::Address| #[trigger] self@.contains_key(a) implies 1
                        <= self@[a].len() <= MAX_EVIDENCE_PER_VALIDATOR by {
                        if a != address {
                            assert(before@.contains_key(a));
                            assert(self@[a] == before@[a]);
                        }
                    }
                }
            },
            None => {
                let mut pairs = Vec::new();
                pairs.push((existing, conflicting));
                self.map.insert(address, pairs);
                proof {
                    assert(!before@.contains_key(address));
                    assert(pairs@ =~= seq![(existing, conflicting)]);
                    assert(self@ =~= with_evidence(before@, existing, conflicting));
                    assert forall|a: Ctx::Address| #[trigger] self@.contains_key(a) implies 1
                        <= self@[a].len() <= MAX_EVIDENCE_PER_VALIDATOR by {
                        if a != address {
                            assert(before@.contains_key(a));
                            assert(self@[a] == before@[a]);
                        }
                    }
                }
            },
        }
    }

    /// The number of validators with recorded equivocations.
    pub fn len(&self) -> (r: usize)
        requires
            self.wf(),
        ensures
            r == self@.len(),
    {
        proof {
            assert(self@.dom() =~= self.map@.dom());
        }
        self.map.len()
    }

    /// The validators with recorded equivocations and their pairs, in
    /// ascending order of address.
    pub fn iter(&self) -> (r: &Vec<(Ctx::Address, Vec<DoubleVote<Ctx>>)>)
        requires
            self.wf(),
        ensures
            r@ == self.map.entries@,
            forall|i: int|
                #![trigger r@[i]]
                0 <= i < r@.len() ==> self@.contains_key(r@[i].0) && self@[r@[i].0] == r@[i].1@,
            r@.len() == self@.len(),
    {
        proof {
            self.map.lemma_len();
            assert(self@.dom() =~= self.map@.dom());
            assert forall|i: int|
                #![trigger self.map.entries@[i]]
                0 <= i < self.map.entries@.len() implies self@.contains_key(self.map.entries@[i].0)
                && self@[self.map.entries@[i].0] == self.map.entries@[i].1@ by {
                self.map.lemma_entry(i);
            }
        }
        &self.map.entries
    }

    /// The validators with recorded equivocations and their pairs, in
    /// ascending order of address.
    pub fn into_iter(self) -> (r: Vec<(Ctx::Address, Vec<DoubleVote<Ctx>>)>)
        requires
            self.wf(),
        ensures
            r@ == self.map.entries@,
    {
        self.map.entries
    }
}

/// Adding evidence never takes any away, and only touches the validator that
/// cast the votes.
pub proof fn law_evidence_only_grows<Ctx: Context>(
    m: Map<Ctx::Address, Seq<DoubleVote<Ctx>>>,
    e: SignedVote<Ctx>,
    c: SignedVote<Ctx>,
    a: Ctx::Address,
)
    requires
        m.contains_key(a),
    ensures
        with_evidence(m, e, c).contains_key(a),
        m[a].is_prefix_of(with_evidence(m, e, c)[a]),
        a != c.validator_address ==> with_evidence(m, e, c)[a] == m[a],
{
}

/// A pair that was recorded is not recorded again, in whatever order its votes
/// are given.
pub proof fn law_evidence_recorded_once<Ctx: Context>(
    m: Map<Ctx::Address, Seq<DoubleVote<Ctx>>>,
    e: SignedVote<Ctx>,
    c: SignedVote<Ctx>,
)
    requires
        e.validator_address == c.validator_address,
    ensures
        ({
            let once = with_evidence(m, e, c);
            with_evidence(once, e, c) == once && with_evidence(once, c, e) == once
        }),
{
    let a = c.validator_address;
    let once = with_evidence(m, e, c);
    if !m.contains_key(a) {
        assert(once[a][0] == (e, c));
    } else if !holds_pair(m[a], e, c) && m[a].len() < MAX_EVIDENCE_PER_VALIDATOR {
        assert(once[a][m[a].len() as int] == (e, c));
    } else if holds_pair(m[a], e, c) {
        assert(holds_pair(m[a], c, e));
    }
}

/// No validator ever has more than [`MAX_EVIDENCE_PER_VALIDATOR`] pairs.
pub proof fn law_evidence_bounded<Ctx: Context>(
    m: Map<Ctx::Address, Seq<DoubleVote<Ctx>>>,
    e: SignedVote<Ctx>,
    c: SignedVote<Ctx>,
)
    requires
        forall|a: Ctx::Address| #[trigger] m.contains_key(a) ==> m[a].len() <= MAX_EVIDENCE_PER_VALIDATOR,
    ensures
        forall|a: Ctx::Address| #[trigger]
            with_evidence(m, e, c).contains_key(a) ==> with_evidence(m, e, c)[a].len()
                <= MAX_EVIDENCE_PER_VALIDATOR,
{
}

} // verus!
