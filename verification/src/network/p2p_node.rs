//! Commands to the peer-to-peer node and events from it.

use vstd::prelude::*;

verus! {

/// What the application asks of the node.
#[derive(Debug)]
pub enum P2PCommand {
    /// Send a message to a peer, or to all.
    SendMessage { peer_id: String, data: Vec<u8> },
    /// Look a peer up by its identifier.
    FindPeer { peer_id: String },
}

/// What the node tells the application.
#[derive(Debug)]
pub enum NodeEvent {
    /// A message came in from the network.
    MessageReceived { sender: String, topic: String, data: Vec<u8> },
    /// A peer was found.
    PeerDiscovered { peer_id: String },
}

} // verus!
