//! The decisions of the engine's actors.

pub mod consensus;
pub mod consensus_laws;
pub mod effect;
pub mod effect_laws;
pub mod event;
pub mod failure;
pub mod message_laws;
pub mod network;
pub mod network_laws;
pub mod node;
pub mod sync;
pub mod sync_laws;
pub mod wal;
pub mod wal_laws;
