//! The ratchet engine: key derivation, the skipped-key cache, the wire
//! envelope and the session state machine.

pub mod kdf;
pub mod skipped_keys;
pub mod envelope;
pub mod enhanced_ratchet;
pub mod laws;
pub mod wire;
pub mod keys;
pub mod session_model;
