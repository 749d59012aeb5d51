//! Configuration model for the quality-management core, with the
//! compliance-mandated validation rules.

use vstd::prelude::*;
use vstd::string::StringExecFns;
use vstd::string::StringSliceAdditionalSpecFns;
use crate::error::QmsError;

verus! {

/// Main configuration structure for the system.
#[derive(Debug, Clone)]
pub struct Config {
    /// Application-specific settings.
    pub application: ApplicationConfig,
    /// Compliance settings.
    pub compliance: ComplianceConfig,
    /// Logging configuration.
    pub logging: LoggingConfig,
    /// Database configuration.
    pub database: DatabaseConfig,
    /// Security configuration.
    pub security: SecurityConfig,
}

/// Application configuration.
#[derive(Debug, Clone)]
pub struct ApplicationConfig {
    /// Organization name for regulatory reporting.
    pub organization_name: String,
    /// Regulator registration number.
    pub fda_registration: Option<String>,
    /// Quality-standard certificate number.
    pub iso_certificate: Option<String>,
    /// Application data directory.
    pub data_directory: String,
}

/// Compliance configuration.
#[derive(Debug, Clone)]
pub struct ComplianceConfig {
    /// Enable strict validation mode.
    pub strict_validation: bool,
    /// Audit retention period in days (minimum seven years).
    pub audit_retention_days: u32,
    /// Require electronic signatures for critical operations.
    pub require_electronic_signatures: bool,
    /// Electronic-records compliance mode.
    pub cfr_part_11_mode: bool,
}

/// Logging configuration for the audit trail.
#[derive(Debug, Clone)]
pub struct LoggingConfig {
    /// Log level (error, warn, info, debug, trace).
    pub level: String,
    /// Log file path.
    pub file: String,
    /// Use JSON format for structured logging.
    pub json_format: bool,
    /// Maximum log file size in megabytes.
    pub max_size_mb: u64,
    /// Number of log files to retain.
    pub retention_count: u32,
    /// Encrypt log files at rest.
    pub encrypt_logs: bool,
}

/// Database configuration.
#[derive(Debug, Clone)]
pub struct DatabaseConfig {
    /// Database URL (file path or `:memory:`).
    pub url: String,
    /// Maximum number of connections in the pool.
    pub max_connections: u32,
    /// Enable write-ahead logging for better concurrency.
    pub wal_mode: bool,
    /// Backup interval in hours.
    pub backup_interval_hours: u32,
    /// Backup retention period in days.
    pub backup_retention_days: u32,
}

/// Security configuration.
#[derive(Debug, Clone)]
pub struct SecurityConfig {
    /// Enable encryption at rest.
    pub encryption_enabled: bool,
    /// Session timeout in minutes.
    pub session_timeout_minutes: u32,
    /// Maximum failed login attempts before lockout.
    pub max_failed_login_attempts: u32,
    /// Account lockout duration in minutes.
    pub lockout_duration_minutes: u32,
    /// Require two-factor authentication.
    pub require_2fa: bool,
}

/// Default used by boolean settings that are on unless switched off.
pub fn default_true() -> (r: bool)
    ensures
        r == true,
{
    true
}

/// Default used by boolean settings that are off unless switched on.
pub fn default_false() -> (r: bool)
    ensures
        r == false,
{
    false
}

/// Default application data directory.
pub fn default_data_dir() -> (r: String)
    ensures
        r@ == "./qms-data"@,
{
    String::from_str("./qms-data")
}

/// Default audit retention period: seven years, in days.
pub fn default_audit_retention() -> (r: u32)
    ensures
        r == 2555,
{
    2555
}

/// Default log level.
pub fn default_log_level() -> (r: String)
    ensures
        r@ == "info"@,
{
    String::from_str("info")
}

/// Default log file path.
pub fn default_log_file() -> (r: String)
    ensures
        r@ == "./qms-data/audit.log"@,
{
    String::from_str("./qms-data/audit.log")
}

/// Default maximum log file size in megabytes.
pub fn default_log_size() -> (r: u64)
    ensures
        r == 10,
{
    10
}

/// Default number of retained log files.
pub fn default_log_retention() -> (r: u32)
    ensures
        r == 30,
{
    30
}

/// Default database URL.
pub fn default_database_url() -> (r: String)
    ensures
        r@ == "data/qms.db"@,
{
    String::from_str("data/qms.db")
}

/// Default maximum number of pooled connections.
pub fn default_max_connections() -> (r: u32)
    ensures
        r == 10,
{
    10
}

/// Default backup interval in hours.
pub fn default_backup_interval() -> (r: u32)
    ensures
        r == 24,
{
    24
}

/// Default backup retention in days.
pub fn default_backup_retention() -> (r: u32)
    ensures
        r == 90,
{
    90
}

/// Default session timeout in minutes.
pub fn default_session_timeout() -> (r: u32)
    ensures
        r == 30,
{
    30
}

/// Default number of failed logins tolerated before lockout.
pub fn default_max_failed_logins() -> (r: u32)
    ensures
        r == 5,
{
    5
}

/// Default lockout duration in minutes.
pub fn default_lockout_duration() -> (r: u32)
    ensures
        r == 15,
{
    15
}

/// Whether a byte is ASCII whitespace.
pub open spec fn is_blank_byte(b: u8) -> bool {
    b == 9 || b == 10 || b == 11 || b == 12 || b == 13 || b == 32
}

/// Whether a byte string contains nothing but whitespace.
pub open spec fn is_blank(s: Seq<u8>) -> bool {
    forall|i: int| 0 <= i < s.len() ==> is_blank_byte(#[trigger] s[i])
}

/// Whether a character string, UTF-8 encoded, contains nothing but
/// whitespace.
pub open spec fn is_blank_text(s: Seq<char>) -> bool {
    is_blank(vstd::utf8::encode_utf8(s))
}

/// Check that a string holds at least one non-whitespace byte.
fn has_visible_text(s: &str) -> (r: bool)
    ensures
        r == !is_blank(s.spec_bytes()),
{
    let bytes = s.as_bytes();
    let mut i: usize = 0;
    while i < bytes.len()
        invariant
            0 <= i <= bytes@.len(),
            bytes@ == s.spec_bytes(),
            forall|j: int| 0 <= j < i ==> is_blank_byte(#[trigger] bytes@[j]),
        decreases bytes@.len() - i,
    {
        let b = bytes[i];
        if !(b == 9 || b == 10 || b == 11 || b == 12 || b == 13 || b == 32) {
            return true;
        }
        i += 1;
    }
    false
}

impl Config {
    /// Validate the configuration for compliance: the audit retention
    /// period must cover at least seven years, and an organization name
    /// must be provided.
    pub fn validate(&self) -> (r: Result<(), QmsError>)
        ensures
            r is Ok <==> (self.compliance.audit_retention_days >= 2555 && !is_blank_text(
                self.application.organization_name@,
            )),
            self.compliance.audit_retention_days < 2555 ==> (r matches Err(
                QmsError::Validation { field, .. },
            ) && field@ == "audit_retention_days"@),
            self.compliance.audit_retention_days >= 2555 && is_blank_text(
                self.application.organization_name@,
            ) ==> (r matches Err(QmsError::Validation { field, .. }) && field@
                == "organization_name"@),
    {
        if self.compliance.audit_retention_days < 2555 {
            return Err(QmsError::Validation {
                field: String::from_str("audit_retention_days"),
                message: String::from_str(
                    "Compliance requires a minimum of seven years (2555 days) of audit retention",
                ),
            });
        }
        if !has_visible_text(self.application.organization_name.as_str()) {
            return Err(QmsError::Validation {
                field: String::from_str("organization_name"),
                message: String::from_str("An organization name is required for compliance"),
            });
        }
        Ok(())
    }
}

impl Config {
    /// Whether this configuration holds the shipped defaults.
    pub open spec fn is_default(self) -> bool {
        self.application.is_default() && self.compliance.is_default() && self.logging.is_default()
            && self.database.is_default() && self.security.is_default()
    }
}

impl Default for Config {
    /// The default configuration, compliant as shipped.
    fn default() -> (r: Self)
        ensures
            r.is_default(),
    {
        Config {
            application: Default::default(),
            compliance: Default::default(),
            logging: Default::default(),
            database: Default::default(),
            security: Default::default(),
        }
    }
}

impl ApplicationConfig {
    /// Whether these application settings hold the shipped defaults.
    pub open spec fn is_default(self) -> bool {
        self.organization_name@ == "Medical Device Company"@ && self.fda_registration is None
            && self.iso_certificate is None && self.data_directory@ == "./qms-data"@
    }
}

impl Default for ApplicationConfig {
    fn default() -> (r: Self)
        ensures
            r.is_default(),
    {
        ApplicationConfig {
            organization_name: String::from_str("Medical Device Company"),
            fda_registration: None,
            iso_certificate: None,
            data_directory: default_data_dir(),
        }
    }
}

impl ComplianceConfig {
    /// Whether these compliance settings hold the shipped defaults.
    pub open spec fn is_default(self) -> bool {
        self.strict_validation && self.audit_retention_days == 2555
            && self.require_electronic_signatures && self.cfr_part_11_mode
    }
}

impl Default for ComplianceConfig {
    fn default() -> (r: Self)
        ensures
            r.is_default(),
    {
        ComplianceConfig {
            strict_validation: default_true(),
            audit_retention_days: default_audit_retention(),
            require_electronic_signatures: default_true(),
            cfr_part_11_mode: default_true(),
        }
    }
}

impl LoggingConfig {
    /// Whether these logging settings hold the shipped defaults.
    pub open spec fn is_default(self) -> bool {
        self.level@ == "info"@ && self.file@ == "./qms-data/audit.log"@ && self.json_format
            && self.max_size_mb == 10 && self.retention_count == 30 && self.encrypt_logs
    }
}

impl Default for LoggingConfig {
    fn default() -> (r: Self)
        ensures
            r.is_default(),
    {
        LoggingConfig {
            level: default_log_level(),
            file: default_log_file(),
            json_format: default_true(),
            max_size_mb: default_log_size(),
            retention_count: default_log_retention(),
            encrypt_logs: default_true(),
        }
    }
}

impl DatabaseConfig {
    /// Whether these database settings hold the shipped defaults.
    pub open spec fn is_default(self) -> bool {
        self.url@ == "data/qms.db"@ && self.max_connections == 10 && self.wal_mode
            && self.backup_interval_hours == 24 && self.backup_retention_days == 90
    }
}

impl Default for DatabaseConfig {
    fn default() -> (r: Self)
        ensures
            r.is_default(),
    {
        DatabaseConfig {
            url: default_database_url(),
            max_connections: default_max_connections(),
            wal_mode: true,
            backup_interval_hours: default_backup_interval(),
            backup_retention_days: default_backup_retention(),
        }
    }
}

impl SecurityConfig {
    /// Whether these security settings hold the shipped defaults.
    pub open spec fn is_default(self) -> bool {
        self.encryption_enabled && self.session_timeout_minutes == 30
            && self.max_failed_login_attempts == 5 && self.lockout_duration_minutes == 15
            && !self.require_2fa
    }
}

impl Default for SecurityConfig {
    fn default() -> (r: Self)
        ensures
            r.is_default(),
    {
        SecurityConfig {
            encryption_enabled: default_true(),
            session_timeout_minutes: default_session_timeout(),
            max_failed_login_attempts: default_max_failed_logins(),
            lockout_duration_minutes: default_lockout_duration(),
            require_2fa: default_false(),
        }
    }
}

} // verus!
