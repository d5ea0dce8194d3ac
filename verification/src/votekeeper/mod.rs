//! Tallying of votes and detection of thresholds.

pub mod call_laws;
pub mod evidence;
pub mod tally;
pub mod history;
pub mod keeper;
pub mod fast;
pub mod laws;
pub mod store_laws;
