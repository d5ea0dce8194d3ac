//! What the network is configured with, and who the node is.

use vstd::prelude::*;
use vstd::string::*;

use crate::discovery::state::Config as DiscoveryConfig;
use crate::engine::event::PeerId;
use crate::network::channel::{Channel, ChannelNames};
use crate::network::multiaddr::{Multiaddr, TransportProtocol};
use crate::network::peer::{bytes_view, copy_bytes, text_view, LocalNodeInfo, LocalNodeView};
use crate::text::{contains_text, texts};

verus! {

/// The names of the protocols.
#[derive(Clone, Debug, PartialEq)]
pub struct ProtocolNames {
    pub consensus: String,
    pub discovery_kad: String,
    pub discovery_regres: String,
    pub sync: String,
    pub validator_proof: String,
}

impl Default for ProtocolNames {
    fn default() -> (r: Self)
        ensures
            r.consensus@ == "/malachitebft-core-consensus/v1beta1"@,
            r.discovery_kad@ == "/malachitebft-discovery/kad/v1beta1"@,
            r.discovery_regres@ == "/malachitebft-discovery/reqres/v1beta1"@,
            r.sync@ == "/malachitebft-sync/v1beta1"@,
            r.validator_proof@ == "/malachitebft-validator-proof/v1"@,
    {
        ProtocolNames {
            consensus: "/malachitebft-core-consensus/v1beta1".to_owned(),
            discovery_kad: "/malachitebft-discovery/kad/v1beta1".to_owned(),
            discovery_regres: "/malachitebft-discovery/reqres/v1beta1".to_owned(),
            sync: "/malachitebft-sync/v1beta1".to_owned(),
            validator_proof: "/malachitebft-validator-proof/v1".to_owned(),
        }
    }
}

/// How messages are published.
#[derive(Clone, Copy, Debug, PartialEq, Eq, Structural)]
pub enum PubSubProtocol {
    /// Along a mesh of peers.
    GossipSub,
    /// To all peers.
    Broadcast,
}

impl Default for PubSubProtocol {
    fn default() -> (r: Self)
        ensures
            r == PubSubProtocol::GossipSub,
    {
        PubSubProtocol::GossipSub
    }
}

impl PubSubProtocol {
    /// Whether messages are published along a mesh of peers.
    pub fn is_gossipsub(&self) -> (r: bool)
        ensures
            r == (*self == PubSubProtocol::GossipSub),
    {
        matches!(self, PubSubProtocol::GossipSub)
    }

    /// Whether messages are published to all peers.
    pub fn is_broadcast(&self) -> (r: bool)
        ensures
            r == (*self == PubSubProtocol::Broadcast),
    {
        matches!(self, PubSubProtocol::Broadcast)
    }
}

/// What gossipsub is configured with.
#[derive(Clone, Copy, Debug, PartialEq, Eq, Structural)]
pub struct GossipSubConfig {
    pub mesh_n: usize,
    pub mesh_n_high: usize,
    pub mesh_n_low: usize,
    pub mesh_outbound_min: usize,
    pub enable_peer_scoring: bool,
    pub enable_explicit_peering: bool,
    pub enable_flood_publish: bool,
}

impl Default for GossipSubConfig {
    fn default() -> (r: Self)
        ensures
            r == (GossipSubConfig {
                mesh_n: 6,
                mesh_n_high: 12,
                mesh_n_low: 4,
                mesh_outbound_min: 2,
                enable_peer_scoring: false,
                enable_explicit_peering: false,
                enable_flood_publish: true,
            }),
    {
        GossipSubConfig {
            mesh_n: 6,
            mesh_n_high: 12,
            mesh_n_low: 4,
            mesh_outbound_min: 2,
            enable_peer_scoring: false,
            enable_explicit_peering: false,
            enable_flood_publish: true,
        }
    }
}

/// What makes a node a possible validator.
#[derive(Clone, Debug)]
pub struct ValidatorIdentity {
    /// The consensus address.
    pub address: String,
    /// The signed proof that the node holds the key of the address.
    pub proof_bytes: Option<Vec<u8>>,
}

/// Who a node is. `K` is its pair of keys for the network.
#[derive(Clone, Debug)]
pub struct NetworkIdentity<K> {
    pub moniker: String,
    pub keypair: K,
    /// What makes the node a possible validator.
    pub validator: Option<ValidatorIdentity>,
}

impl<K> NetworkIdentity<K> {
    /// The consensus address, as a value.
    pub open spec fn address(self) -> Option<Seq<char>> {
        match self.validator {
            Some(v) => Some(v.address@),
            None => None,
        }
    }

    /// The proof, as a value.
    pub open spec fn proof_view(self) -> Option<Seq<u8>> {
        match self.validator {
            Some(v) => bytes_view(v.proof_bytes),
            None => None,
        }
    }

    /// A node without a proof; a possible validator where it has a consensus
    /// address.
    pub fn new(moniker: String, keypair: K, consensus_address: Option<String>) -> (r: Self)
        ensures
            r.moniker == moniker,
            r.keypair == keypair,
            r.address() == text_view(consensus_address),
            r.proof_view() is None,
    {
        NetworkIdentity {
            moniker,
            keypair,
            validator: match consensus_address {
                Some(address) => Some(ValidatorIdentity { address, proof_bytes: None }),
                None => None,
            },
        }
    }

    /// A possible validator with a proof.
    pub fn new_validator(moniker: String, keypair: K, address: String, proof_bytes: Vec<u8>) -> (r: Self)
        ensures
            r.moniker == moniker,
            r.keypair == keypair,
            r.address() == Some(address@),
            r.proof_view() == Some(proof_bytes@),
    {
        NetworkIdentity {
            moniker,
            keypair,
            validator: Some(ValidatorIdentity { address, proof_bytes: Some(proof_bytes) }),
        }
    }

    /// The consensus address, if the node has one.
    pub fn consensus_address(&self) -> (r: Option<&str>)
        ensures
            match r {
                Some(a) => self.address() == Some(a@),
                None => self.address() is None,
            },
    {
        match &self.validator {
            Some(v) => Some(v.address.as_str()),
            None => None,
        }
    }
}

/// What the network is configured with.
#[derive(Clone, Debug)]
pub struct Config {
    pub listen_addr: Multiaddr,
    pub persistent_peers: Vec<Multiaddr>,
    pub persistent_peers_only: bool,
    /// What discovery is configured with.
    pub discovery: DiscoveryConfig,
    /// How long a connection is kept that is not used, in milliseconds.
    pub idle_connection_timeout: u64,
    pub transport: TransportProtocol,
    pub gossipsub: GossipSubConfig,
    pub pubsub_protocol: PubSubProtocol,
    pub channel_names: ChannelNames,
    pub rpc_max_size: usize,
    pub pubsub_max_size: usize,
    pub enable_consensus: bool,
    pub enable_sync: bool,
    pub protocol_names: ProtocolNames,
}

/// The timing of QUIC connections, in milliseconds.
#[derive(Clone, Copy, Debug, PartialEq, Eq, Structural)]
pub struct QuicTiming {
    pub max_idle_timeout: u32,
    pub keep_alive_interval: u32,
}

/// A connection that is not answered within this time is closed, so that a peer
/// that comes back is not met by the state of its old connection.
pub fn quic_timing() -> (r: QuicTiming)
    ensures
        r == (QuicTiming { max_idle_timeout: 300, keep_alive_interval: 100 }),
{
    QuicTiming { max_idle_timeout: 300, keep_alive_interval: 100 }
}

/// The names of `channels`, each once.
pub open spec fn topic_names(names: ChannelNames, channels: Seq<Channel>) -> Seq<Seq<char>>
    decreases channels.len(),
{
    if channels.len() == 0 {
        Seq::empty()
    } else {
        let rest = topic_names(names, channels.drop_last());
        let name = names.name(channels.last());
        if rest.contains(name) {
            rest
        } else {
            rest.push(name)
        }
    }
}

/// The names of `channels`, each once.
pub fn topic_names_of(names: &ChannelNames, channels: &Vec<Channel>) -> (r: Vec<String>)
    ensures
        texts(r@) == topic_names(*names, channels@),
{
    let mut out: Vec<String> = Vec::new();
    let mut i: usize = 0;
    assert(texts(out@) =~= Seq::<Seq<char>>::empty());
    assert(channels@.subrange(0, 0) =~= Seq::<Channel>::empty());
    while i < channels.len()
        invariant
            i <= channels@.len(),
            texts(out@) == topic_names(*names, channels@.subrange(0, i as int)),
        decreases channels@.len() - i,
    {
        proof {
            assert(channels@.subrange(0, i + 1).drop_last() =~= channels@.subrange(0, i as int));
            assert(channels@.subrange(0, i + 1).last() == channels@[i as int]);
        }
        let name = channels[i].as_str(names).to_owned();
        if !contains_text(&out, &name) {
            let ghost before = out@;
            out.push(name);
            assert(texts(out@) =~= texts(before).push(name@));
        }
        i = i + 1;
    }
    assert(channels@.subrange(0, i as int) =~= channels@);
    out
}

impl Config {
    /// What a node knows of itself when it starts: it is subscribed to the
    /// channels of consensus where these are enabled, and not yet a validator.
    pub fn local_node_info<K>(&self, identity: &NetworkIdentity<K>, peer_id: PeerId) -> (r: LocalNodeInfo)
        ensures
            r@ == (LocalNodeView {
                moniker: identity.moniker@,
                peer_id,
                listen_addr: self.listen_addr@,
                consensus_address: identity.address(),
                proof_bytes: identity.proof_view(),
                is_validator: false,
                persistent_peers_only: self.persistent_peers_only,
                subscribed_topics: if self.enable_consensus {
                    topic_names(
                        self.channel_names,
                        seq![Channel::Consensus, Channel::Liveness, Channel::ProposalParts],
                    )
                } else {
                    Seq::empty()
                },
            }),
    {
        let subscribed_topics = if self.enable_consensus {
            topic_names_of(&self.channel_names, &Channel::consensus())
        } else {
            let none: Vec<String> = Vec::new();
            assert(texts(none@) =~= Seq::<Seq<char>>::empty());
            none
        };
        let (consensus_address, proof_bytes) = match &identity.validator {
            Some(v) => (Some(v.address.clone()), copy_bytes(&v.proof_bytes)),
            None => (None, None),
        };
        LocalNodeInfo {
            moniker: identity.moniker.clone(),
            peer_id,
            listen_addr: self.listen_addr.copy(),
            consensus_address,
            proof_bytes,
            is_validator: false,
            persistent_peers_only: self.persistent_peers_only,
            subscribed_topics,
        }
    }
}

} // verus!
