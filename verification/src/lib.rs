//! Tamper-evident audit trail core for a regulatory quality-management
//! system: audit entry model, append-only store, integrity verification,
//! and the signature and at-rest-encryption services that protect it.

use vstd::prelude::*;

pub mod audit;
pub mod capa;
pub mod cli;
mod clock;
pub mod config;
pub mod database;
pub mod document;
pub mod error;
mod ident;
pub mod logging;
pub mod post_market;
pub mod risk;
pub mod security;
pub mod supplier;
pub mod text;
pub mod training;
pub mod ui;

verus! {

/// Regulatory rule-set version in force for newly created audit entries.
pub const FDA_CFR_PART_820_VERSION: &'static str = "2022";

/// Quality-management standard edition the system is aligned with.
pub const ISO_13485_VERSION: &'static str = "2016";

/// Version of this library.
pub const APPLICATION_VERSION: &'static str = "0.1.0";

/// Minimum audit retention period in days (seven years).
pub const MAX_AUDIT_RETENTION_DAYS: u32 = 2555;

/// Whether audit logs are encrypted at rest.
pub const AUDIT_LOG_ENCRYPTION: bool = true;

/// Names of the fields every audit entry must carry.
pub fn required_audit_fields() -> (r: Vec<&'static str>)
    ensures
        r@.len() == 7,
        r@[0]@ == "timestamp"@,
        r@[1]@ == "user_id"@,
        r@[2]@ == "action"@,
        r@[3]@ == "resource"@,
        r@[4]@ == "outcome"@,
        r@[5]@ == "ip_address"@,
        r@[6]@ == "session_id"@,
{
    let mut v: Vec<&'static str> = Vec::new();
    v.push("timestamp");
    v.push("user_id");
    v.push("action");
    v.push("resource");
    v.push("outcome");
    v.push("ip_address");
    v.push("session_id");
    v
}

} // verus!
