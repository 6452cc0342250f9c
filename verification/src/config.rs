//! Configuration of the application and of the messenger.

use vstd::prelude::*;

verus! {

/// The major part of the library's version.
pub const VERSION_MAJOR: u32 = 0;

/// The minor part of the library's version.
pub const VERSION_MINOR: u32 = 2;

/// The patch part of the library's version.
pub const VERSION_PATCH: u32 = 0;

/// The library's version.
pub const VERSION: &'static str = "0.2.0";

/// The library's name.
pub const LIBRARY_NAME: &'static str = "Qubee Enhanced";

/// What the library is.
pub const LIBRARY_DESCRIPTION: &'static str =
    "Post-Quantum Secure Messaging Library with Enhanced Security";

/// How the application behaves.
#[derive(Debug)]
pub struct AppConfig {
    pub enable_cover_traffic: bool,
    /// The base interval of cover traffic, in seconds.
    pub dummy_packet_frequency_secs: u64,
    /// `"TOFU"` or `"pinned"`.
    pub trust_model: String,
}

impl Default for AppConfig {
    fn default() -> (out: Self)
        ensures
            out.enable_cover_traffic,
            out.dummy_packet_frequency_secs == 15,
            out.trust_model@ == "TOFU"@,
    {
        AppConfig {
            enable_cover_traffic: true,
            dummy_packet_frequency_secs: 15,
            trust_model: "TOFU".to_string(),
        }
    }
}

/// How the messenger behaves.
#[derive(Debug, Clone, Copy)]
pub struct MessengerConfig {
    /// How far ahead of the last message a receiver walks its chain at most.
    pub max_skip_messages: usize,
    pub enable_cover_traffic: bool,
    pub enable_formal_verification: bool,
    /// Seconds between two security audits.
    pub audit_interval: u64,
    /// Seconds between two key rotations.
    pub key_rotation_interval: u64,
}

impl Default for MessengerConfig {
    fn default() -> (out: Self)
        ensures
            out.max_skip_messages == 1000,
            out.enable_cover_traffic,
            !out.enable_formal_verification,
            out.audit_interval == 3600,
            out.key_rotation_interval == 86400,
    {
        MessengerConfig {
            max_skip_messages: 1000,
            enable_cover_traffic: true,
            enable_formal_verification: false,
            audit_interval: 3600,
            key_rotation_interval: 86400,
        }
    }
}

} // verus!
