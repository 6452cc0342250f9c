//! A post-quantum hybrid ratchet for end-to-end encrypted messaging.
//!
//! The heart of the crate is the session in [`crypto`]: a root key, a send
//! and a receive chain, and a cache of skipped message keys, moved by
//! classical and post-quantum ratchet steps. Around it stand the registry
//! that pins a sender's ephemeral signing key ([`ephemeral_keys`]), the key
//! store ([`security`]), and the adapters that carry text, audio and files
//! ([`secure_message`], [`audio`], [`file_transfer`]). Beside them stand
//! the books a messenger keeps: identities and contacts ([`identity`]),
//! groups with their members and permissions ([`groups`]), and calls
//! ([`calling`]).
//!
//! What the crate believes of the cryptographic primitives it calls is
//! gathered in [`primitives`]; everything else is proved.

pub mod audio;
pub mod audit;
pub mod bytes;
pub mod calling;
pub mod config;
pub mod crypto;
pub mod ephemeral_keys;
pub mod errors;
pub mod file_transfer;
pub mod groups;
pub mod identity;
pub mod messenger;
pub mod network;
pub mod oob_secrets;
pub mod primitives;
pub mod sas;
pub mod secure_message;
pub mod security;
pub mod testing;
pub mod utils;
