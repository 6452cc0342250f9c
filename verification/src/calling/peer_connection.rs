//! Peer connections.

use vstd::prelude::*;

verus! {

/// Where a peer connection stands.
#[derive(Clone, Copy, Debug, PartialEq, Eq, Structural)]
pub enum PeerConnectionState {
    /// Made, but no offer or answer yet.
    New,
    Connecting,
    Connected,
    Closed,
    Failed,
}

/// An ICE candidate of a negotiation.
#[derive(Clone, Debug)]
pub struct ICECandidate {
    pub sdp_mid: String,
    pub sdp_mline_index: u32,
    pub candidate: String,
}

} // verus!
