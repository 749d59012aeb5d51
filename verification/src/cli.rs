//! Command-line options for the quality-management system, with the
//! compliance checks that constrain them.

use vstd::prelude::*;
use vstd::string::StringExecFns;
use crate::error::QmsError;

verus! {

/// Command-line options.
#[derive(Debug, Clone)]
pub struct Cli {
    /// Path to the configuration file.
    pub config_path: String,
    /// Database URL override.
    pub database_url: Option<String>,
    /// Log level override (trace, debug, info, warn, error).
    pub log_level: Option<String>,
    /// Enable development mode (less strict validation).
    pub dev_mode: bool,
    /// Enable audit trail verification on startup.
    pub verify_audit_trail: bool,
    /// Initialize the database schema and exit.
    pub init_db: bool,
    /// Run in headless mode (no terminal dashboard).
    pub headless: bool,
    /// Generate a sample configuration file and exit.
    pub generate_config: bool,
}

impl Cli {
    /// Validate the options for compliance: outside development mode,
    /// audit trail verification must stay enabled.
    pub fn validate(&self) -> (r: Result<(), QmsError>)
        ensures
            r is Ok <==> (self.dev_mode || self.verify_audit_trail),
            !(self.dev_mode || self.verify_audit_trail) ==> (r matches Err(
                QmsError::Validation { field, .. },
            ) && field@ == "verify_audit_trail"@),
    {
        if !self.dev_mode && !self.verify_audit_trail {
            return Err(QmsError::Validation {
                field: String::from_str("verify_audit_trail"),
                message: String::from_str(
                    "Audit trail verification must be enabled in production mode for FDA compliance",
                ),
            });
        }
        Ok(())
    }

    /// The log level in force: an explicit override wins; otherwise
    /// development mode logs at debug and production at info.
    pub fn effective_log_level(&self) -> (r: String)
        ensures
            self.log_level matches Some(l) ==> r@ == l@,
            self.log_level is None && self.dev_mode ==> r@ == "debug"@,
            self.log_level is None && !self.dev_mode ==> r@ == "info"@,
    {
        match &self.log_level {
            Some(level) => level.clone(),
            None => {
                if self.dev_mode {
                    String::from_str("debug")
                } else {
                    String::from_str("info")
                }
            },
        }
    }
}

impl Default for Cli {
    /// The options as parsed from an empty command line.
    fn default() -> (r: Self)
        ensures
            r.config_path@ == "qms-config.toml"@,
            r.database_url is None,
            r.log_level is None,
            !r.dev_mode,
            r.verify_audit_trail,
            !r.init_db,
            !r.headless,
            !r.generate_config,
    {
        Cli {
            config_path: String::from_str("qms-config.toml"),
            database_url: None,
            log_level: None,
            dev_mode: false,
            verify_audit_trail: true,
            init_db: false,
            headless: false,
            generate_config: false,
        }
    }
}

} // verus!
