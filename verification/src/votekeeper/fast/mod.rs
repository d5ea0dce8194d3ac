//! Vote tallying for Fast Tendermint (`n > 5f`).
//!
//! A separate keeper, not a mode of the classic one:
//!
//! 1. There is a single voting step, so there is one tally per round.
//! 2. Two thresholds are tested over that tally and latched independently:
//!    `2f+1` votes for a value make it valid, `n - f` decide it. The first
//!    must not suppress the second.
//! 3. There is no `f+1` rule, so no advice to skip a round. `n - f` votes for
//!    anything are the only way to advance.

pub mod history;
pub mod keeper;
pub mod params;
