//! Publishing messages, and subscribing to channels.

use vstd::prelude::*;
use vstd::string::*;

use crate::network::channel::{Channel, ChannelNames};
use crate::network::config::PubSubProtocol;
use crate::text::texts;

verus! {

/// The parts of the peer-to-peer layer that are in use.
#[derive(Clone, Copy, Debug, PartialEq, Eq, Structural)]
pub struct Enabled {
    pub gossipsub: bool,
    pub broadcast: bool,
    pub sync: bool,
}

impl Enabled {
    /// Whether messages can be published with `protocol`.
    pub open spec fn allows(self, protocol: PubSubProtocol) -> bool {
        match protocol {
            PubSubProtocol::GossipSub => self.gossipsub,
            PubSubProtocol::Broadcast => self.broadcast,
        }
    }

    /// Whether messages can be published with `protocol`.
    fn permits(&self, protocol: PubSubProtocol) -> (r: bool)
        ensures
            r == self.allows(protocol),
    {
        match protocol {
            PubSubProtocol::GossipSub => self.gossipsub,
            PubSubProtocol::Broadcast => self.broadcast,
        }
    }
}

/// A protocol that is not in use.
#[derive(Clone, Copy, Debug, PartialEq, Eq, Structural)]
pub struct NotEnabled(pub PubSubProtocol);

impl NotEnabled {
    /// The text of the error.
    pub fn message(&self) -> (r: String)
        ensures
            r@ == (match self.0 {
                PubSubProtocol::GossipSub => "GossipSub not enabled"@,
                PubSubProtocol::Broadcast => "Broadcast not enabled"@,
            }),
    {
        match self.0 {
            PubSubProtocol::GossipSub => "GossipSub not enabled".to_owned(),
            PubSubProtocol::Broadcast => "Broadcast not enabled".to_owned(),
        }
    }
}

/// The topics of `channels`.
pub open spec fn topics(names: ChannelNames, channels: Seq<Channel>) -> Seq<Seq<char>> {
    channels.map_values(|c: Channel| names.name(c))
}

/// The topics to subscribe to with `protocol`, one after the other, for
/// `channels`; an error where the protocol is not in use.
pub fn subscribe(
    enabled: Enabled,
    protocol: PubSubProtocol,
    channels: &Vec<Channel>,
    channel_names: &ChannelNames,
) -> (r: Result<Vec<String>, NotEnabled>)
    ensures
        match r {
            Ok(t) => enabled.allows(protocol) && texts(t@) == topics(*channel_names, channels@),
            Err(e) => !enabled.allows(protocol) && e == NotEnabled(protocol),
        },
{
    if !enabled.permits(protocol) {
        return Err(NotEnabled(protocol));
    }
    let mut out: Vec<String> = Vec::new();
    let mut i: usize = 0;
    while i < channels.len()
        invariant
            i <= channels@.len(),
            out@.len() == i,
            forall|j: int| 0 <= j < i ==> (#[trigger] out@[j])@ == channel_names.name(channels@[j]),
        decreases channels@.len() - i,
    {
        out.push(channels[i].as_str(channel_names).to_owned());
        i = i + 1;
    }
    assert(texts(out@) =~= topics(*channel_names, channels@));
    Ok(out)
}

/// A message to publish.
pub struct Publication {
    pub protocol: PubSubProtocol,
    pub topic: String,
    pub data: Vec<u8>,
}

/// The message to publish on `channel` with `protocol`; an error where the
/// protocol is not in use.
pub fn publish(
    enabled: Enabled,
    protocol: PubSubProtocol,
    channel: Channel,
    channel_names: &ChannelNames,
    data: Vec<u8>,
) -> (r: Result<Publication, NotEnabled>)
    ensures
        match r {
            Ok(p) => enabled.allows(protocol) && p.protocol == protocol && p.topic@
                == channel_names.name(channel) && p.data == data,
            Err(e) => !enabled.allows(protocol) && e == NotEnabled(protocol),
        },
{
    if !enabled.permits(protocol) {
        return Err(NotEnabled(protocol));
    }
    Ok(Publication { protocol, topic: channel.as_str(channel_names).to_owned(), data })
}

} // verus!
