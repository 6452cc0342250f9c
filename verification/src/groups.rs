//! Groups: identifiers, settings and role-based permissions.

pub mod group_permissions;
pub mod group_crypto;
pub mod group_manager;
pub mod group_model;
