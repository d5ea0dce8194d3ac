//! Rounds, votes, validators and thresholds.

use vstd::prelude::*;

use crate::ident::{Ident, Ranked};

verus! {

/// A consensus round: either none, or a numbered one.
#[derive(Clone, Copy, Debug, PartialEq, Eq, Structural)]
pub enum Round {
    /// No round.
    Nil,
    /// The round with this number.
    At(u32),
}

impl Round {
    /// The round as a number, with -1 for no round.
    pub open spec fn number(self) -> int {
        match self {
            Round::Nil => -1,
            Round::At(r) => r as int,
        }
    }

    /// The round with the number `round`.
    pub fn new(round: u32) -> (r: Round)
        ensures
            r == Round::At(round),
    {
        Round::At(round)
    }

    /// The round as a number, with -1 for no round.
    pub fn as_i64(&self) -> (r: i64)
        ensures
            r == self.number(),
    {
        match self {
            Round::Nil => -1,
            Round::At(r) => *r as i64,
        }
    }
}

impl Ident for Round {
    fn same(&self, other: &Self) -> (r: bool) {
        *self == *other
    }

    fn dup(&self) -> (r: Self) {
        *self
    }
}

impl Ranked for Round {
    open spec fn rank(self) -> int {
        self.number()
    }

    proof fn rank_injective(a: Self, b: Self) {
    }

    fn precedes(&self, other: &Self) -> (r: bool) {
        self.as_i64() < other.as_i64()
    }
}

/// The two kinds of vote of the classic protocol.
#[derive(Clone, Copy, Debug, PartialEq, Eq, Structural)]
pub enum VoteType {
    /// A vote in the first voting step.
    Prevote,
    /// A vote in the second voting step.
    Precommit,
}

/// What a vote is for: nil or a value.
#[derive(Debug, PartialEq, Eq)]
pub enum NilOrVal<V> {
    /// Nil.
    Nil,
    /// The value with this identifier.
    Val(V),
}

impl<V: Ident> Ident for NilOrVal<V> {
    fn same(&self, other: &Self) -> (r: bool) {
        match (self, other) {
            (NilOrVal::Nil, NilOrVal::Nil) => true,
            (NilOrVal::Val(a), NilOrVal::Val(b)) => a.same(b),
            _ => false,
        }
    }

    fn dup(&self) -> (r: Self) {
        match self {
            NilOrVal::Nil => NilOrVal::Nil,
            NilOrVal::Val(a) => NilOrVal::Val(a.dup()),
        }
    }
}

/// The identifier types that an application chooses.
pub trait Context: Sized {
    /// Identifies a validator.
    type Address: Ranked;
    /// Identifies a proposed value.
    type ValueId: Ident;
    /// A blockchain height.
    type Height: Ident;
    /// Application data attached to a precommit.
    type Extension: Ident;
    /// A signature over a vote.
    type Signature: Ident;
}

/// A vote with the signature of the validator that cast it.
pub struct SignedVote<Ctx: Context> {
    pub vote_type: VoteType,
    pub height: Ctx::Height,
    pub round: Round,
    pub value: NilOrVal<Ctx::ValueId>,
    pub validator_address: Ctx::Address,
    pub extension: Option<Ctx::Extension>,
    pub signature: Ctx::Signature,
}

/// Whether two optional identifiers are the same.
pub fn same_option<T: Ident>(a: &Option<T>, b: &Option<T>) -> (r: bool)
    ensures
        r == (*a == *b),
{
    match (a, b) {
        (None, None) => true,
        (Some(x), Some(y)) => x.same(y),
        _ => false,
    }
}

/// A copy of an optional identifier.
pub fn dup_option<T: Ident>(a: &Option<T>) -> (r: Option<T>)
    ensures
        r == *a,
{
    match a {
        None => None,
        Some(x) => Some(x.dup()),
    }
}

impl<Ctx: Context> Ident for SignedVote<Ctx> {
    fn same(&self, other: &Self) -> (r: bool) {
        self.vote_type == other.vote_type && self.height.same(&other.height) && self.round
            == other.round && self.value.same(&other.value) && self.validator_address.same(
            &other.validator_address,
        ) && same_option(&self.extension, &other.extension) && self.signature.same(
            &other.signature,
        )
    }

    fn dup(&self) -> (r: Self) {
        SignedVote {
            vote_type: self.vote_type,
            height: self.height.dup(),
            round: self.round,
            value: self.value.dup(),
            validator_address: self.validator_address.dup(),
            extension: dup_option(&self.extension),
            signature: self.signature.dup(),
        }
    }
}

/// A voting weight.
pub type Weight = u64;

/// A validator and its voting power.
pub struct Validator<Ctx: Context> {
    pub address: Ctx::Address,
    pub voting_power: Weight,
}

/// The sum of the voting powers of `vs`.
pub open spec fn total_power<Ctx: Context>(vs: Seq<Validator<Ctx>>) -> nat
    decreases vs.len(),
{
    if vs.len() == 0 {
        0
    } else {
        total_power(vs.drop_last()) + vs.last().voting_power as nat
    }
}

/// Whether some validator of `vs` has the address `a`.
pub open spec fn lists<Ctx: Context>(vs: Seq<Validator<Ctx>>, a: Ctx::Address) -> bool {
    exists|i: int| 0 <= i < vs.len() && (#[trigger] vs[i]).address == a
}

/// The voting power of the validator of `vs` with the address `a`, 0 if there is none.
pub open spec fn power_in<Ctx: Context>(vs: Seq<Validator<Ctx>>, a: Ctx::Address) -> nat {
    if lists(vs, a) {
        vs[choose|i: int| 0 <= i < vs.len() && (#[trigger] vs[i]).address == a].voting_power as nat
    } else {
        0
    }
}

/// Whether no two validators of `vs` share an address.
pub open spec fn distinct_addresses<Ctx: Context>(vs: Seq<Validator<Ctx>>) -> bool {
    forall|i: int, j: int|
        #![trigger vs[i], vs[j]]
        0 <= i < j < vs.len() ==> vs[i].address != vs[j].address
}

/// The validators of a height.
pub struct ValidatorSet<Ctx: Context> {
    pub validators: Vec<Validator<Ctx>>,
}

impl<Ctx: Context> ValidatorSet<Ctx> {
    /// Addresses are distinct and the total voting power is a `u64`.
    pub open spec fn wf(self) -> bool {
        distinct_addresses(self.validators@) && self.total() <= u64::MAX
    }

    /// The total voting power.
    pub open spec fn total(self) -> nat {
        total_power(self.validators@)
    }

    /// Whether the set has a validator with the address `a`.
    pub open spec fn has(self, a: Ctx::Address) -> bool {
        lists(self.validators@, a)
    }

    /// The voting power of the validator with the address `a`.
    pub open spec fn power(self, a: Ctx::Address) -> nat {
        power_in(self.validators@, a)
    }

    /// A validator set, unless two validators share an address or the total
    /// voting power does not fit.
    pub fn new(validators: Vec<Validator<Ctx>>) -> (r: Option<Self>)
        ensures
            match r {
                Some(s) => s.wf() && s.validators@ == validators@,
                None => !(distinct_addresses(validators@) && total_power(validators@) <= u64::MAX),
            },
    {
        let mut total: u64 = 0;
        let mut i: usize = 0;
        assert(validators@.subrange(0, 0) =~= Seq::<Validator<Ctx>>::empty());
        while i < validators.len()
            invariant
                i <= validators@.len(),
                total == total_power(validators@.subrange(0, i as int)),
                distinct_addresses(validators@.subrange(0, i as int)),
            decreases validators@.len() - i,
        {
            let mut j: usize = 0;
            while j < i
                invariant
                    j <= i < validators@.len(),
                    forall|k: int|
                        0 <= k < j ==> (#[trigger] validators@[k]).address
                            != validators@[i as int].address,
                decreases i - j,
            {
                if validators[j].address.same(&validators[i].address) {
                    return None;
                }
                j = j + 1;
            }
            proof {
                let next = validators@.subrange(0, i + 1);
                assert(next.drop_last() =~= validators@.subrange(0, i as int));
                lemma_total_prefix(validators@, i + 1);
            }
            match total.checked_add(validators[i].voting_power) {
                None => {
                    return None;
                },
                Some(t) => {
                    total = t;
                },
            }
            i = i + 1;
        }
        assert(validators@.subrange(0, i as int) =~= validators@);
        Some(ValidatorSet { validators })
    }

    /// The number of validators.
    pub fn count(&self) -> (r: usize)
        ensures
            r == self.validators@.len(),
    {
        self.validators.len()
    }

    /// The total voting power.
    pub fn total_voting_power(&self) -> (r: Weight)
        requires
            self.wf(),
        ensures
            r == self.total(),
    {
        let mut total: u64 = 0;
        let mut i: usize = 0;
        assert(self.validators@.subrange(0, 0) =~= Seq::<Validator<Ctx>>::empty());
        while i < self.validators.len()
            invariant
                self.wf(),
                i <= self.validators@.len(),
                total == total_power(self.validators@.subrange(0, i as int)),
            decreases self.validators@.len() - i,
        {
            proof {
                let next = self.validators@.subrange(0, i + 1);
                assert(next.drop_last() =~= self.validators@.subrange(0, i as int));
                lemma_total_prefix(self.validators@, i + 1);
            }
            total = total + self.validators[i].voting_power;
            i = i + 1;
        }
        assert(self.validators@.subrange(0, i as int) =~= self.validators@);
        total
    }

    /// The validator with the address `a`, by index.
    pub fn find(&self, a: &Ctx::Address) -> (r: Option<usize>)
        requires
            self.wf(),
        ensures
            match r {
                Some(i) => i < self.validators@.len() && self.validators@[i as int].address == *a
                    && self.has(*a) && self.power(*a) == self.validators@[i as int].voting_power,
                None => !self.has(*a),
            },
    {
        let mut i: usize = 0;
        while i < self.validators.len()
            invariant
                self.wf(),
                i <= self.validators@.len(),
                forall|k: int| 0 <= k < i ==> (#[trigger] self.validators@[k]).address != *a,
            decreases self.validators@.len() - i,
        {
            if self.validators[i].address.same(a) {
                return Some(i);
            }
            i = i + 1;
        }
        None
    }

    /// The validator with the address `a`.
    pub fn get_by_address(&self, a: &Ctx::Address) -> (r: Option<&Validator<Ctx>>)
        requires
            self.wf(),
        ensures
            match r {
                Some(v) => self.has(*a) && v.address == *a && v.voting_power == self.power(*a)
                    && self.validators@.contains(*v),
                None => !self.has(*a),
            },
    {
        match self.find(a) {
            Some(i) => Some(&self.validators[i]),
            None => None,
        }
    }
}

/// A prefix has no more power than the whole.
pub proof fn lemma_total_prefix<Ctx: Context>(vs: Seq<Validator<Ctx>>, n: int)
    requires
        0 <= n <= vs.len(),
    ensures
        total_power(vs.subrange(0, n)) <= total_power(vs),
    decreases vs.len() - n,
{
    if n == vs.len() {
        assert(vs.subrange(0, n) =~= vs);
    } else {
        lemma_total_prefix(vs, n + 1);
        assert(vs.subrange(0, n + 1).drop_last() =~= vs.subrange(0, n));
    }
}

/// A fraction of the total voting power that a weight has to exceed.
#[derive(Clone, Copy, Debug, PartialEq, Eq, Structural)]
pub struct ThresholdParam {
    pub numerator: u64,
    pub denominator: u64,
}

/// Whether `weight` exceeds the fraction `p` of `total`.
pub open spec fn exceeds(p: ThresholdParam, weight: nat, total: nat) -> bool {
    weight * p.denominator > total * p.numerator
}

impl ThresholdParam {
    /// The threshold of more than `numerator / denominator`.
    pub fn new(numerator: u64, denominator: u64) -> (r: Self)
        ensures
            r.numerator == numerator,
            r.denominator == denominator,
    {
        ThresholdParam { numerator, denominator }
    }

    /// Whether `weight` exceeds this fraction of `total`.
    pub fn is_met(&self, weight: Weight, total: Weight) -> (r: bool)
        requires
            total * self.numerator <= u64::MAX,
        ensures
            r == exceeds(*self, weight as nat, total as nat),
    {
        assert(weight * self.denominator <= u64::MAX * u64::MAX) by (nonlinear_arith)
            requires
                weight <= u64::MAX,
                self.denominator <= u64::MAX,
        ;
        assert(u64::MAX * u64::MAX <= u128::MAX) by (nonlinear_arith);
        let lhs: u128 = weight as u128 * self.denominator as u128;
        let rhs: u64 = total * self.numerator;
        lhs > rhs as u128
    }
}

/// The thresholds of the classic protocol.
#[derive(Clone, Copy, Debug, PartialEq, Eq, Structural)]
pub struct ThresholdParams {
    /// Enough weight for a quorum.
    pub quorum: ThresholdParam,
    /// Enough weight to hold at least one honest vote.
    pub honest: ThresholdParam,
}

impl ThresholdParams {
    /// Whether thresholds of `total` can be computed.
    pub open spec fn fits(self, total: nat) -> bool {
        total * self.quorum.numerator <= u64::MAX && total * self.honest.numerator <= u64::MAX
    }
}

impl Default for ThresholdParams {
    /// More than two thirds for a quorum, more than one third for an honest vote.
    fn default() -> (r: Self)
        ensures
            r.quorum == (ThresholdParam { numerator: 2, denominator: 3 }),
            r.honest == (ThresholdParam { numerator: 1, denominator: 3 }),
    {
        ThresholdParams {
            quorum: ThresholdParam::new(2, 3),
            honest: ThresholdParam::new(1, 3),
        }
    }
}

/// The consensus protocols, by the thresholds they test.
#[derive(Clone, Copy, Debug, PartialEq, Eq, Structural)]
pub enum ConsensusProtocol {
    /// Two voting steps, tolerating fewer than a third of faulty weight.
    Classic,
    /// One voting step, tolerating fewer than a fifth of faulty weight.
    Fast,
}

impl ConsensusProtocol {
    /// The fraction needed to decide.
    pub open spec fn decision_fraction(self) -> ThresholdParam {
        match self {
            ConsensusProtocol::Classic => ThresholdParam { numerator: 2, denominator: 3 },
            ConsensusProtocol::Fast => ThresholdParam { numerator: 4, denominator: 5 },
        }
    }

    /// The fraction needed for a value quorum.
    pub open spec fn quorum_fraction(self) -> ThresholdParam {
        match self {
            ConsensusProtocol::Classic => ThresholdParam { numerator: 2, denominator: 3 },
            ConsensusProtocol::Fast => ThresholdParam { numerator: 2, denominator: 5 },
        }
    }

    /// The fraction that holds an honest vote, where the protocol has such a rule.
    pub open spec fn honest_fraction(self) -> Option<ThresholdParam> {
        match self {
            ConsensusProtocol::Classic => Some(ThresholdParam { numerator: 1, denominator: 3 }),
            ConsensusProtocol::Fast => None,
        }
    }

    /// The threshold needed to decide.
    pub fn decision(&self) -> (r: ThresholdParam)
        ensures
            r == self.decision_fraction(),
    {
        match self {
            ConsensusProtocol::Classic => ThresholdParam::new(2, 3),
            ConsensusProtocol::Fast => ThresholdParam::new(4, 5),
        }
    }

    /// The threshold needed for a value quorum.
    pub fn quorum(&self) -> (r: ThresholdParam)
        ensures
            r == self.quorum_fraction(),
    {
        match self {
            ConsensusProtocol::Classic => ThresholdParam::new(2, 3),
            ConsensusProtocol::Fast => ThresholdParam::new(2, 5),
        }
    }

    /// The threshold that holds an honest vote, where the protocol has such a rule.
    pub fn honest(&self) -> (r: Option<ThresholdParam>)
        ensures
            r == self.honest_fraction(),
    {
        match self {
            ConsensusProtocol::Classic => Some(ThresholdParam::new(1, 3)),
            ConsensusProtocol::Fast => None,
        }
    }
}

/// The weight of a list of addresses.
pub open spec fn weight_of<Ctx: Context>(addrs: Seq<Ctx::Address>, vs: Seq<Validator<Ctx>>) -> nat
    decreases addrs.len(),
{
    if addrs.len() == 0 {
        0
    } else {
        weight_of::<Ctx>(addrs.drop_last(), vs) + power_in(vs, addrs.last())
    }
}

/// Taking an address out of a list takes its power out of the weight.
proof fn lemma_weight_remove<Ctx: Context>(addrs: Seq<Ctx::Address>, vs: Seq<Validator<Ctx>>, i: int)
    requires
        0 <= i < addrs.len(),
    ensures
        weight_of::<Ctx>(addrs, vs) == weight_of::<Ctx>(addrs.remove(i), vs) + power_in(vs, addrs[i]),
    decreases addrs.len(),
{
    if i == addrs.len() - 1 {
        assert(addrs.remove(i) =~= addrs.drop_last());
    } else {
        lemma_weight_remove::<Ctx>(addrs.drop_last(), vs, i);
        assert(addrs.remove(i).drop_last() =~= addrs.drop_last().remove(i));
        assert(addrs.remove(i).last() == addrs.last());
    }
}

/// The weight depends only on the power of the listed addresses.
proof fn lemma_weight_same<Ctx: Context>(
    addrs: Seq<Ctx::Address>,
    vs: Seq<Validator<Ctx>>,
    ws: Seq<Validator<Ctx>>,
)
    requires
        forall|i: int| 0 <= i < addrs.len() ==> power_in(vs, #[trigger] addrs[i]) == power_in(ws, addrs[i]),
    ensures
        weight_of::<Ctx>(addrs, vs) == weight_of::<Ctx>(addrs, ws),
    decreases addrs.len(),
{
    if addrs.len() > 0 {
        let rest = addrs.drop_last();
        assert forall|i: int| 0 <= i < rest.len() implies power_in(vs, #[trigger] rest[i]) == power_in(
            ws,
            rest[i],
        ) by {
            assert(rest[i] == addrs[i]);
        }
        lemma_weight_same(rest, vs, ws);
        assert(addrs.last() == addrs[addrs.len() - 1]);
    }
}

/// Distinct validators together weigh no more than the whole set.
pub proof fn lemma_weight_bounded<Ctx: Context>(addrs: Seq<Ctx::Address>, vs: Seq<Validator<Ctx>>)
    requires
        distinct_addresses(vs),
        addrs.no_duplicates(),
    ensures
        weight_of::<Ctx>(addrs, vs) <= total_power(vs),
    decreases vs.len(),
{
    if vs.len() == 0 {
        lemma_weight_empty::<Ctx>(addrs, vs);
    } else {
        let ws = vs.drop_last();
        let a = vs.last().address;
        assert(power_in(vs, a) == vs.last().voting_power) by {
            assert(vs[vs.len() - 1].address == a);
        }
        assert forall|b: Ctx::Address| b != a implies power_in(vs, b) == #[trigger] power_in(ws, b) by {
            lemma_power_drop_last(vs, b);
        }
        if addrs.contains(a) {
            let i = choose|i: int| 0 <= i < addrs.len() && addrs[i] == a;
            lemma_weight_remove::<Ctx>(addrs, vs, i);
            let rest = addrs.remove(i);
            assert(rest.no_duplicates());
            assert forall|k: int| 0 <= k < rest.len() implies power_in(vs, #[trigger] rest[k])
                == power_in(ws, rest[k]) by {
                let k0 = if k < i { k } else { k + 1 };
                assert(rest[k] == addrs[k0]);
                assert(addrs[k0] != addrs[i]);
            }
            lemma_weight_same(rest, vs, ws);
            lemma_weight_bounded::<Ctx>(rest, ws);
        } else {
            assert forall|k: int| 0 <= k < addrs.len() implies power_in(vs, #[trigger] addrs[k])
                == power_in(ws, addrs[k]) by {
                assert(addrs[k] != a);
            }
            lemma_weight_same(addrs, vs, ws);
            lemma_weight_bounded::<Ctx>(addrs, ws);
        }
    }
}

proof fn lemma_weight_empty<Ctx: Context>(addrs: Seq<Ctx::Address>, vs: Seq<Validator<Ctx>>)
    requires
        vs.len() == 0,
    ensures
        weight_of::<Ctx>(addrs, vs) == 0,
    decreases addrs.len(),
{
    if addrs.len() > 0 {
        lemma_weight_empty::<Ctx>(addrs.drop_last(), vs);
    }
}

proof fn lemma_power_drop_last<Ctx: Context>(vs: Seq<Validator<Ctx>>, b: Ctx::Address)
    requires
        vs.len() > 0,
        distinct_addresses(vs),
        b != vs.last().address,
    ensures
        power_in(vs, b) == power_in(vs.drop_last(), b),
{
    let ws = vs.drop_last();
    if lists(vs, b) {
        let i = choose|i: int| 0 <= i < vs.len() && (#[trigger] vs[i]).address == b;
        assert(ws[i] == vs[i]);
        assert(lists(ws, b));
        let j = choose|j: int| 0 <= j < ws.len() && (#[trigger] ws[j]).address == b;
        assert(vs[j] == ws[j]);
        assert(i == j);
    } else {
        if lists(ws, b) {
            let j = choose|j: int| 0 <= j < ws.len() && (#[trigger] ws[j]).address == b;
            assert(vs[j] == ws[j]);
        }
    }
}


/// The kinds of consensus timeout.
#[derive(Clone, Copy, Debug, PartialEq, Eq, Structural)]
pub enum TimeoutKind {
    /// Waiting for a proposal.
    Propose,
    /// Waiting for prevotes.
    Prevote,
    /// Waiting for precommits.
    Precommit,
    /// Time to send the own votes again.
    Rebroadcast,
    /// Time to finalize the height, after this many milliseconds.
    FinalizeHeight(u64),
}

/// A consensus timeout of a round.
#[derive(Clone, Copy, Debug, PartialEq, Eq, Structural)]
pub struct Timeout {
    pub round: Round,
    pub kind: TimeoutKind,
}

impl Timeout {
    /// The timeout of `kind` in `round`.
    pub fn new(round: Round, kind: TimeoutKind) -> (r: Self)
        ensures
            r == (Timeout { round, kind }),
    {
        Timeout { round, kind }
    }
}

/// Where a proposed value came from.
#[derive(Clone, Copy, Debug, PartialEq, Eq, Structural)]
pub enum ValueOrigin {
    /// The sync protocol.
    Sync,
    /// Consensus.
    Consensus,
}

/// The round with the number `n`, none if `n` is negative.
///
/// Only the low 32 bits of a number count.
pub open spec fn round_of(n: i64) -> Round {
    if n < 0 {
        Round::Nil
    } else {
        Round::At((n % 0x1_0000_0000) as u32)
    }
}

/// The round with the number `n`, none if `n` is negative.
pub fn round_from_i64(n: i64) -> (r: Round)
    ensures
        r == round_of(n),
        0 <= n <= u32::MAX ==> r == Round::At(n as u32),
{
    if n < 0 {
        Round::Nil
    } else {
        Round::At((n % 0x1_0000_0000) as u32)
    }
}

} // verus!
