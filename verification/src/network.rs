//! What the peer-to-peer node is told and what it tells.

pub mod p2p_node;
