//! The audit entry model: one immutable record of a compliance-relevant
//! action, with completeness validation.

use vstd::prelude::*;
use vstd::string::StringExecFns;
use crate::clock;
use crate::error::QmsError;

verus! {

/// Outcome of an audited action.
#[derive(Debug, Clone, Copy, PartialEq, Eq, Structural)]
pub enum AuditOutcome {
    Success,
    Failure,
    Warning,
}

impl AuditOutcome {
    /// Canonical textual representation of the outcome.
    pub fn as_str(&self) -> (r: &'static str)
        ensures
            *self is Success ==> r@ == "SUCCESS"@,
            *self is Failure ==> r@ == "FAILURE"@,
            *self is Warning ==> r@ == "WARNING"@,
    {
        match self {
            AuditOutcome::Success => "SUCCESS",
            AuditOutcome::Failure => "FAILURE",
            AuditOutcome::Warning => "WARNING",
        }
    }
}

/// One audit trail entry, immutable once persisted.
#[derive(Debug, Clone)]
pub struct AuditLogEntry {
    /// Seconds since the Unix epoch at which the action happened.
    pub timestamp: i64,
    /// Identifier of the responsible party.
    pub user_id: String,
    /// Short verb naming the operation.
    pub action: String,
    /// Identifier of the affected entity.
    pub resource: String,
    /// Outcome of the action.
    pub outcome: AuditOutcome,
    /// Originating address, if applicable.
    pub ip_address: Option<String>,
    /// Identifier grouping entries into a logical session.
    pub session_id: String,
    /// Arbitrary structured payload, serialized; may be absent.
    pub metadata: Option<String>,
    /// Regulatory rule-set version in force at creation.
    pub compliance_version: String,
    /// Digital signature over the identity fields, set before persistence.
    pub signature_hash: Option<String>,
}

impl AuditLogEntry {
    /// Whether every required field is non-empty.
    pub open spec fn is_complete(self) -> bool {
        self.user_id@.len() > 0 && self.action@.len() > 0 && self.resource@.len() > 0
            && self.session_id@.len() > 0
    }

    /// Name of the first empty required field, checked in the fixed order
    /// actor, action, resource, session.
    pub open spec fn first_missing_field(self) -> Seq<char> {
        if self.user_id@.len() == 0 {
            "actor_id"@
        } else if self.action@.len() == 0 {
            "action"@
        } else if self.resource@.len() == 0 {
            "resource"@
        } else {
            "session_id"@
        }
    }

    /// Create a new audit log entry, stamped with the current time.
    pub fn new(
        user_id: String,
        action: String,
        resource: String,
        outcome: AuditOutcome,
        session_id: String,
    ) -> (r: AuditLogEntry)
        ensures
            r.user_id@ == user_id@,
            r.action@ == action@,
            r.resource@ == resource@,
            r.outcome == outcome,
            r.session_id@ == session_id@,
            r.ip_address is None,
            r.metadata is None,
            r.signature_hash is None,
            r.compliance_version@ == crate::FDA_CFR_PART_820_VERSION@,
    {
        AuditLogEntry {
            timestamp: clock::now_unix(),
            user_id,
            action,
            resource,
            outcome,
            ip_address: None,
            session_id,
            metadata: None,
            compliance_version: String::from_str(crate::FDA_CFR_PART_820_VERSION),
            signature_hash: None,
        }
    }

    /// Add an originating address to the entry.
    pub fn with_ip(self, ip: String) -> (r: AuditLogEntry)
        ensures
            r == (AuditLogEntry { ip_address: Some(ip), ..self }),
    {
        AuditLogEntry { ip_address: Some(ip), ..self }
    }

    /// Add a serialized metadata payload to the entry.
    pub fn with_metadata(self, metadata: String) -> (r: AuditLogEntry)
        ensures
            r == (AuditLogEntry { metadata: Some(metadata), ..self }),
    {
        AuditLogEntry { metadata: Some(metadata), ..self }
    }

    /// Add a digital signature to the entry.
    pub fn with_signature(self, signature: String) -> (r: AuditLogEntry)
        ensures
            r == (AuditLogEntry { signature_hash: Some(signature), ..self }),
    {
        AuditLogEntry { signature_hash: Some(signature), ..self }
    }

    /// Validate entry completeness: fails naming the first empty required
    /// field, in the fixed order actor, action, resource, session.
    pub fn validate(&self) -> (r: Result<(), QmsError>)
        ensures
            r is Ok <==> self.is_complete(),
            !self.is_complete() ==> (r matches Err(QmsError::Validation { field, .. })
                && field@ == self.first_missing_field()),
    {
        if self.user_id.as_str().is_empty() {
            return Err(QmsError::Validation {
                field: String::from_str("actor_id"),
                message: String::from_str("A responsible actor is required for the audit trail"),
            });
        }
        if self.action.as_str().is_empty() {
            return Err(QmsError::Validation {
                field: String::from_str("action"),
                message: String::from_str("An action is required for the audit trail"),
            });
        }
        if self.resource.as_str().is_empty() {
            return Err(QmsError::Validation {
                field: String::from_str("resource"),
                message: String::from_str("A resource is required for the audit trail"),
            });
        }
        if self.session_id.as_str().is_empty() {
            return Err(QmsError::Validation {
                field: String::from_str("session_id"),
                message: String::from_str("A session identifier is required for the audit trail"),
            });
        }
        Ok(())
    }
}

} // verus!
