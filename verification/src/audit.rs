//! Security audit and reporting.

pub mod security_auditor;
