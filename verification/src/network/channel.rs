//! The channels that messages are published on.

use vstd::prelude::*;
use vstd::string::*;

use crate::bytes::same_bytes;
use crate::ident::{Ident, Ranked};

verus! {

/// A channel of the peer-to-peer layer.
#[derive(Clone, Copy, Debug, PartialEq, Eq, Structural)]
pub enum Channel {
    /// Votes and proposals.
    Consensus,
    /// Votes sent again and certificates.
    Liveness,
    /// Parts of proposed values.
    ProposalParts,
    /// Status updates for sync.
    Sync,
}

impl Channel {
    /// The position of the channel in the list of channels.
    pub open spec fn number(self) -> int {
        match self {
            Channel::Consensus => 0,
            Channel::Liveness => 1,
            Channel::ProposalParts => 2,
            Channel::Sync => 3,
        }
    }

    /// The position of the channel in the list of channels.
    pub fn index(&self) -> (r: u8)
        ensures
            r == self.number(),
    {
        match self {
            Channel::Consensus => 0,
            Channel::Liveness => 1,
            Channel::ProposalParts => 2,
            Channel::Sync => 3,
        }
    }
}

/// The names of the channels.
#[derive(Clone, Debug)]
pub struct ChannelNames {
    pub consensus: String,
    pub proposal_parts: String,
    pub liveness: String,
    pub sync: String,
}

impl ChannelNames {
    /// The name of `channel`.
    pub open spec fn name(self, channel: Channel) -> Seq<char> {
        match channel {
            Channel::Consensus => self.consensus@,
            Channel::Liveness => self.liveness@,
            Channel::ProposalParts => self.proposal_parts@,
            Channel::Sync => self.sync@,
        }
    }

    /// The first channel with the name `topic`.
    pub open spec fn channel_of(self, topic: Seq<char>) -> Option<Channel> {
        if topic == self.consensus@ {
            Some(Channel::Consensus)
        } else if topic == self.liveness@ {
            Some(Channel::Liveness)
        } else if topic == self.proposal_parts@ {
            Some(Channel::ProposalParts)
        } else if topic == self.sync@ {
            Some(Channel::Sync)
        } else {
            None
        }
    }

    /// The first channel whose name is `topic` in bytes.
    pub open spec fn channel_of_bytes(self, topic: Seq<u8>) -> Option<Channel> {
        if topic == vstd::utf8::encode_utf8(self.consensus@) {
            Some(Channel::Consensus)
        } else if topic == vstd::utf8::encode_utf8(self.liveness@) {
            Some(Channel::Liveness)
        } else if topic == vstd::utf8::encode_utf8(self.proposal_parts@) {
            Some(Channel::ProposalParts)
        } else if topic == vstd::utf8::encode_utf8(self.sync@) {
            Some(Channel::Sync)
        } else {
            None
        }
    }
}

impl Default for ChannelNames {
    fn default() -> (r: Self)
        ensures
            r.consensus@ == "/consensus"@,
            r.proposal_parts@ == "/proposal_parts"@,
            r.liveness@ == "/liveness"@,
            r.sync@ == "/sync"@,
    {
        ChannelNames {
            consensus: "/consensus".to_owned(),
            proposal_parts: "/proposal_parts".to_owned(),
            liveness: "/liveness".to_owned(),
            sync: "/sync".to_owned(),
        }
    }
}

impl Channel {
    /// The channels of consensus.
    pub fn consensus() -> (r: Vec<Channel>)
        ensures
            r@ == seq![Channel::Consensus, Channel::Liveness, Channel::ProposalParts],
    {
        let r = vec![Channel::Consensus, Channel::Liveness, Channel::ProposalParts];
        assert(r@ =~= seq![Channel::Consensus, Channel::Liveness, Channel::ProposalParts]);
        r
    }

    /// The name of the channel.
    pub fn as_str<'a>(&self, channel_names: &'a ChannelNames) -> (r: &'a str)
        ensures
            r@ == channel_names.name(*self),
    {
        match self {
            Channel::Consensus => channel_names.consensus.as_str(),
            Channel::Liveness => channel_names.liveness.as_str(),
            Channel::ProposalParts => channel_names.proposal_parts.as_str(),
            Channel::Sync => channel_names.sync.as_str(),
        }
    }

    /// The channel of a gossipsub topic, whose text is its name.
    pub fn from_gossipsub_topic(topic: &String, channel_names: &ChannelNames) -> (r: Option<Channel>)
        ensures
            r == channel_names.channel_of(topic@),
    {
        if *topic == channel_names.consensus {
            Some(Channel::Consensus)
        } else if *topic == channel_names.liveness {
            Some(Channel::Liveness)
        } else if *topic == channel_names.proposal_parts {
            Some(Channel::ProposalParts)
        } else if *topic == channel_names.sync {
            Some(Channel::Sync)
        } else {
            None
        }
    }

    /// The channel of a broadcast topic, whose bytes are those of its name.
    pub fn from_broadcast_topic(topic: &[u8], channel_names: &ChannelNames) -> (r: Option<Channel>)
        ensures
            r == channel_names.channel_of_bytes(topic@),
    {
        if same_bytes(topic, channel_names.consensus.as_str().as_bytes()) {
            Some(Channel::Consensus)
        } else if same_bytes(topic, channel_names.liveness.as_str().as_bytes()) {
            Some(Channel::Liveness)
        } else if same_bytes(topic, channel_names.proposal_parts.as_str().as_bytes()) {
            Some(Channel::ProposalParts)
        } else if same_bytes(topic, channel_names.sync.as_str().as_bytes()) {
            Some(Channel::Sync)
        } else {
            None
        }
    }
}

impl Ident for Channel {
    fn same(&self, other: &Self) -> (r: bool) {
        *self == *other
    }

    fn dup(&self) -> (r: Self) {
        *self
    }
}

impl Ranked for Channel {
    open spec fn rank(self) -> int {
        self.number()
    }

    proof fn rank_injective(a: Self, b: Self) {
    }

    fn precedes(&self, other: &Self) -> (r: bool) {
        self.index() < other.index()
    }
}

} // verus!
