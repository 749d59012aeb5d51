use qmsrs::config::Config;

#[test]
fn test_config_validation_success() {
    let config = Config::default();
    assert!(config.validate().is_ok());
}

#[test]
fn test_config_validation_audit_retention() {
    let mut config = Config::default();
    config.compliance.audit_retention_days = 365; // Less than 7 years

    let result = config.validate();
    assert!(result.is_err());
}

#[test]
fn test_config_validation_organization_name() {
    let mut config = Config::default();
    config.application.organization_name = "".to_string();

    let result = config.validate();
    assert!(result.is_err());
}

#[test]
fn test_default_values_compliance() {
    let config = Config::default();

    // Test compliance defaults
    assert!(config.compliance.strict_validation);
    assert!(config.compliance.cfr_part_11_mode);
    assert!(config.compliance.require_electronic_signatures);
    assert_eq!(config.compliance.audit_retention_days, 2555); // 7 years
}

#[test]
fn test_config_defaults_whole() {
    let config = Config::default();
    assert_eq!(config.application.organization_name, "Medical Device Company");
    assert_eq!(config.application.data_directory, "./qms-data");
    assert_eq!(config.logging.level, "info");
    assert_eq!(config.logging.file, "./qms-data/audit.log");
    assert_eq!(config.logging.max_size_mb, 10);
    assert_eq!(config.logging.retention_count, 30);
    assert_eq!(config.database.url, "data/qms.db");
    assert_eq!(config.database.max_connections, 10);
    assert!(config.database.wal_mode);
    assert_eq!(config.security.session_timeout_minutes, 30);
    assert_eq!(config.security.max_failed_login_attempts, 5);
    assert_eq!(config.security.lockout_duration_minutes, 15);
    assert!(!config.security.require_2fa);
}
