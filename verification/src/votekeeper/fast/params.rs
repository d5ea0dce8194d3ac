//! Threshold parameters for Fast Tendermint.

use vstd::prelude::*;

use crate::types::{exceeds, ConsensusProtocol, ThresholdParam};

verus! {

/// The two thresholds that Fast Tendermint tests, as fractions of the total
/// voting power. There is no honest (`f+1`) threshold.
///
/// With `n = 5f+1` and unit weights, `n - f = 4f+1` is more than four fifths
/// and `2f+1` is more than two fifths.
#[derive(Clone, Copy, Debug, PartialEq, Eq, Structural)]
pub struct FastThresholdParams {
    /// `n - f`: enough to decide, and to advance a round on any value.
    pub decision: ThresholdParam,
    /// `2f+1`: enough to make a value valid and to justify a re-proposal.
    pub quorum: ThresholdParam,
}

impl FastThresholdParams {
    /// `n - f`, more than four fifths of the total voting power.
    pub fn n_minus_f() -> (r: ThresholdParam)
        ensures
            r == (ThresholdParam { numerator: 4, denominator: 5 }),
    {
        ThresholdParam::new(4, 5)
    }

    /// `2f+1`, more than two fifths of the total voting power.
    pub fn two_f_plus_one() -> (r: ThresholdParam)
        ensures
            r == (ThresholdParam { numerator: 2, denominator: 5 }),
    {
        ThresholdParam::new(2, 5)
    }

    /// Whether thresholds of `total` can be computed.
    pub open spec fn fits(self, total: nat) -> bool {
        total * self.decision.numerator <= u64::MAX && total * self.quorum.numerator <= u64::MAX
    }
}

impl Default for FastThresholdParams {
    /// The fractions of [`ConsensusProtocol::Fast`].
    fn default() -> (r: Self)
        ensures
            r.decision == ConsensusProtocol::Fast.decision_fraction(),
            r.quorum == ConsensusProtocol::Fast.quorum_fraction(),
            r.decision == (ThresholdParam { numerator: 4, denominator: 5 }),
            r.quorum == (ThresholdParam { numerator: 2, denominator: 5 }),
    {
        FastThresholdParams {
            decision: ConsensusProtocol::Fast.decision(),
            quorum: ConsensusProtocol::Fast.quorum(),
        }
    }
}

/// With `n = 5f+1` voters of equal weight, `4f+1` is the least number that
/// exceeds four fifths and `2f+1` the least that exceeds two fifths.
pub proof fn law_fast_thresholds_are_counts(f: nat, votes: nat)
    ensures
        exceeds(ConsensusProtocol::Fast.decision_fraction(), votes, 5 * f + 1) <==> votes >= 4 * f + 1,
        exceeds(ConsensusProtocol::Fast.quorum_fraction(), votes, 5 * f + 1) <==> votes >= 2 * f
            + 1,
{
}

} // verus!
