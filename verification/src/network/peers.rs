//! Persistent peers: the errors of changing them.

use vstd::prelude::*;
use vstd::string::*;

verus! {

/// Why the persistent peers could not be changed.
#[derive(Clone, Debug, PartialEq, Eq)]
pub enum PersistentPeerError {
    /// The peer to add is a persistent peer already.
    AlreadyExists,
    /// The peer to remove is no persistent peer.
    NotFound,
    /// The network is not started.
    NetworkStopped,
    /// Something else went wrong.
    InternalError(String),
}

impl PersistentPeerError {
    /// The text of the error.
    pub open spec fn text(self) -> Seq<char> {
        match self {
            PersistentPeerError::AlreadyExists => "Persistent peer already exists"@,
            PersistentPeerError::NotFound => "Persistent peer not found"@,
            PersistentPeerError::NetworkStopped => "Network not started"@,
            PersistentPeerError::InternalError(e) => "Internal error: "@ + e@,
        }
    }

    /// The text of the error.
    pub fn message(&self) -> (r: String)
        ensures
            r@ == self.text(),
    {
        match self {
            PersistentPeerError::AlreadyExists => "Persistent peer already exists".to_owned(),
            PersistentPeerError::NotFound => "Persistent peer not found".to_owned(),
            PersistentPeerError::NetworkStopped => "Network not started".to_owned(),
            PersistentPeerError::InternalError(e) => {
                "Internal error: ".to_owned().concat(e.as_str())
            },
        }
    }
}

} // verus!
