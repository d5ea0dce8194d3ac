//! The decisions of the peer-to-peer layer.

pub mod channel;
pub mod config;
pub mod ip_limits;
pub mod laws;
pub mod limit_laws;
pub mod membership;
pub mod metric_laws;
pub mod metrics;
pub mod multiaddr;
pub mod peer;
pub mod peer_laws;
pub mod peers;
pub mod pubsub;
pub mod quint_ids;
pub mod report;
pub mod series_laws;
pub mod service;
pub mod service_laws;
pub mod state;
pub mod swarm;
pub mod text_laws;
pub mod validator_proof;
