//! Peer discovery: which peers the node knows and how they are connected.

pub mod call_laws;
pub mod laws;
pub mod oracle;
pub mod state;
pub mod trace_laws;
