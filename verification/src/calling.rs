//! Calls: their kinds, states and settings.

pub mod call_manager;
pub mod call_model;
pub mod media_encryption;
pub mod peer_connection;
pub mod signaling;
pub mod webrtc_manager;
