//! Error taxonomy for the quality-management core.

use vstd::prelude::*;

verus! {

/// Errors that can occur in the quality-management system.
#[derive(Debug, Clone, PartialEq)]
pub enum QmsError {
    /// Configuration-related errors.
    Configuration { message: String },
    /// Database-related errors.
    Database { message: String },
    /// Validation errors.
    Validation { field: String, message: String },
    /// Workflow-specific validation errors.
    ValidationError { field: String, message: String },
    /// Resource not found errors.
    NotFound { resource: String, id: String },
    /// Audit trail errors (critical for compliance).
    AuditTrail { message: String },
    /// Authentication and authorization errors.
    Security { message: String },
    /// Document control errors.
    DocumentControl { message: String },
    /// Interface errors.
    UserInterface { message: String },
    /// Encryption/decryption errors.
    Encryption { message: String },
    /// File system operation errors.
    FileSystem { path: String, message: String },
    /// Network-related errors.
    Network { message: String },
    /// Serialization/deserialization errors.
    Serialization { message: String },
    /// Generic application errors.
    Application { message: String },
}

/// Error severity levels for compliance reporting.
#[derive(Debug, Clone, Copy, PartialEq, Eq, Structural)]
pub enum ErrorSeverity {
    Low,
    Medium,
    High,
    Critical,
}

/// The code that identifies each error class in logs.
pub open spec fn spec_error_code(e: QmsError) -> Seq<char> {
    match e {
        QmsError::Database { .. } => "DB_ERROR"@,
        QmsError::AuditTrail { .. } => "AUDIT_ERROR"@,
        QmsError::Security { .. } => "SEC_ERROR"@,
        QmsError::DocumentControl { .. } => "DOC_ERROR"@,
        QmsError::UserInterface { .. } => "UI_ERROR"@,
        QmsError::Validation { .. } => "VAL_ERROR"@,
        QmsError::ValidationError { .. } => "VAL_ERROR"@,
        QmsError::Encryption { .. } => "ENC_ERROR"@,
        QmsError::FileSystem { .. } => "FS_ERROR"@,
        QmsError::Network { .. } => "NET_ERROR"@,
        QmsError::Serialization { .. } => "SER_ERROR"@,
        QmsError::Application { .. } => "APP_ERROR"@,
        QmsError::NotFound { .. } => "NOT_FOUND"@,
        QmsError::Configuration { .. } => "CFG_ERROR"@,
    }
}

/// The severity assigned to each error class.
pub open spec fn spec_severity(e: QmsError) -> ErrorSeverity {
    match e {
        QmsError::AuditTrail { .. } => ErrorSeverity::Critical,
        QmsError::Security { .. } => ErrorSeverity::Critical,
        QmsError::Database { .. } => ErrorSeverity::High,
        QmsError::DocumentControl { .. } => ErrorSeverity::High,
        QmsError::Validation { .. } => ErrorSeverity::Medium,
        QmsError::ValidationError { .. } => ErrorSeverity::Medium,
        QmsError::Encryption { .. } => ErrorSeverity::High,
        QmsError::Configuration { .. } => ErrorSeverity::Medium,
        QmsError::UserInterface { .. } => ErrorSeverity::Low,
        QmsError::FileSystem { .. } => ErrorSeverity::Medium,
        QmsError::Network { .. } => ErrorSeverity::Medium,
        QmsError::Serialization { .. } => ErrorSeverity::Low,
        QmsError::Application { .. } => ErrorSeverity::Medium,
        QmsError::NotFound { .. } => ErrorSeverity::Medium,
    }
}

impl QmsError {
    /// Get the error code for logging and tracking.
    pub fn error_code(&self) -> (r: &'static str)
        ensures
            r@ == spec_error_code(*self),
    {
        match self {
            QmsError::Database { .. } => "DB_ERROR",
            QmsError::AuditTrail { .. } => "AUDIT_ERROR",
            QmsError::Security { .. } => "SEC_ERROR",
            QmsError::DocumentControl { .. } => "DOC_ERROR",
            QmsError::UserInterface { .. } => "UI_ERROR",
            QmsError::Validation { .. } => "VAL_ERROR",
            QmsError::ValidationError { .. } => "VAL_ERROR",
            QmsError::Encryption { .. } => "ENC_ERROR",
            QmsError::FileSystem { .. } => "FS_ERROR",
            QmsError::Network { .. } => "NET_ERROR",
            QmsError::Serialization { .. } => "SER_ERROR",
            QmsError::Application { .. } => "APP_ERROR",
            QmsError::NotFound { .. } => "NOT_FOUND",
            QmsError::Configuration { .. } => "CFG_ERROR",
        }
    }

    /// Determine the error's severity for prioritization.
    pub fn severity(&self) -> (r: ErrorSeverity)
        ensures
            r == spec_severity(*self),
    {
        match self {
            QmsError::AuditTrail { .. } => ErrorSeverity::Critical,
            QmsError::Security { .. } => ErrorSeverity::Critical,
            QmsError::Database { .. } => ErrorSeverity::High,
            QmsError::DocumentControl { .. } => ErrorSeverity::High,
            QmsError::Validation { .. } => ErrorSeverity::Medium,
            QmsError::ValidationError { .. } => ErrorSeverity::Medium,
            QmsError::Encryption { .. } => ErrorSeverity::High,
            QmsError::Configuration { .. } => ErrorSeverity::Medium,
            QmsError::UserInterface { .. } => ErrorSeverity::Low,
            QmsError::FileSystem { .. } => ErrorSeverity::Medium,
            QmsError::Network { .. } => ErrorSeverity::Medium,
            QmsError::Serialization { .. } => ErrorSeverity::Low,
            QmsError::Application { .. } => ErrorSeverity::Medium,
            QmsError::NotFound { .. } => ErrorSeverity::Medium,
        }
    }

    /// Check whether the error requires immediate regulator notification.
    pub fn requires_fda_notification(&self) -> (r: bool)
        ensures
            r == (spec_severity(*self) is Critical),
    {
        matches!(self.severity(), ErrorSeverity::Critical)
    }
}

impl ErrorSeverity {
    /// Canonical textual form of the severity level.
    pub fn as_str(&self) -> (r: &'static str)
        ensures
            *self is Low ==> r@ == "LOW"@,
            *self is Medium ==> r@ == "MEDIUM"@,
            *self is High ==> r@ == "HIGH"@,
            *self is Critical ==> r@ == "CRITICAL"@,
    {
        match self {
            ErrorSeverity::Low => "LOW",
            ErrorSeverity::Medium => "MEDIUM",
            ErrorSeverity::High => "HIGH",
            ErrorSeverity::Critical => "CRITICAL",
        }
    }
}

} // verus!
