//! The events that the network actor hands to the other actors.

use vstd::prelude::*;

use crate::bytes::ShortBytes;
use crate::network::channel::Channel;

verus! {

/// Identifies a peer: the bytes of its multihash.
pub type PeerId = ShortBytes;

/// Identifies a sync request, inbound or outbound.
pub type RequestId = ShortBytes;

/// What a peer says of its chain.
#[derive(Clone, Copy, Debug, PartialEq, Eq, Structural)]
pub struct Status {
    /// The height of its last decided value.
    pub tip_height: u64,
    /// The lowest height of which it has the decided value.
    pub history_min_height: u64,
}

impl Status {
    /// A status.
    pub fn new(tip_height: u64, history_min_height: u64) -> (r: Self)
        ensures
            r.tip_height == tip_height,
            r.history_min_height == history_min_height,
    {
        Status { tip_height, history_min_height }
    }
}

/// Why a request that was sent to a peer failed.
#[derive(Clone, Copy, Debug, PartialEq, Eq, Structural)]
pub enum OutboundFailureReason {
    /// The peer could not be dialed.
    DialFailure,
    /// The request timed out.
    Timeout,
    /// The connection was closed.
    ConnectionClosed,
    /// The peer does not speak the protocol.
    UnsupportedProtocols,
    /// Reading or writing failed.
    Io,
}

/// An event of the network actor. `P` is what messages carry, which the
/// actors hand on without reading it.
pub enum NetworkEvent<P> {
    /// The node listens on this address.
    Listening(P),
    /// A peer connected.
    PeerConnected(PeerId),
    /// A peer disconnected.
    PeerDisconnected(PeerId),
    /// A peer subscribed to a channel.
    PeerSubscribed(PeerId, Channel),
    /// A vote came in.
    Vote(PeerId, P),
    /// A proposal came in.
    Proposal(PeerId, P),
    /// A part of a proposed value came in.
    ProposalPart(PeerId, P),
    /// A polka certificate came in.
    PolkaCertificate(PeerId, P),
    /// A round certificate came in.
    RoundCertificate(PeerId, P),
    /// A validator proof came in. No response is expected.
    ValidatorProofReceived { peer_id: PeerId, proof: P },
    /// A status update came in.
    Status(PeerId, Status),
    /// A sync request came in.
    SyncRequest(RequestId, PeerId, P),
    /// The response to a sync request came in, unless it could not be decoded.
    SyncResponse(RequestId, PeerId, Option<P>),
    /// A sync request failed.
    SyncRequestFailed(RequestId, PeerId, OutboundFailureReason),
}

} // verus!
