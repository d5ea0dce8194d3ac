//! Proofs by which validators show peers who they are. A proof goes one way, on
//! the first connection to a peer.

pub mod behaviour;
pub mod codec;
