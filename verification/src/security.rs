//! Handling of secrets in memory, random numbers and stored keys.

pub mod secure_memory;
pub mod secure_rng;
pub mod secure_keystore;
