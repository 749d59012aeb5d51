use qmsrs::cli::Cli;
use qmsrs::error::QmsError;

#[test]
fn test_cli_default_values() {
    let cli = Cli::default();
    assert_eq!(cli.config_path, "qms-config.toml");
    assert_eq!(cli.database_url, None);
    assert_eq!(cli.log_level, None);
    assert!(!cli.dev_mode);
    assert!(cli.verify_audit_trail);
    assert!(!cli.init_db);
    assert!(!cli.headless);
    assert!(!cli.generate_config);
}

#[test]
fn test_cli_validation_production_mode() {
    let mut cli = Cli::default();
    cli.verify_audit_trail = false;
    cli.dev_mode = false;

    let result = cli.validate();
    assert!(result.is_err());

    match result.unwrap_err() {
        QmsError::Validation { field, message } => {
            assert_eq!(field, "verify_audit_trail");
            assert!(message.contains("FDA compliance"));
        }
        _ => panic!("Expected validation error"),
    }
}

#[test]
fn test_cli_validation_dev_mode() {
    let mut cli = Cli::default();
    cli.verify_audit_trail = false;
    cli.dev_mode = true;
    cli.generate_config = true;

    let result = cli.validate();
    assert!(result.is_ok()); // Should be ok in dev mode
}

#[test]
fn test_effective_log_level() {
    let mut cli = Cli::default();

    // Test default production level
    assert_eq!(cli.effective_log_level(), "info");

    // Test dev mode default
    cli.dev_mode = true;
    assert_eq!(cli.effective_log_level(), "debug");

    // Test explicit override
    cli.log_level = Some("trace".to_string());
    assert_eq!(cli.effective_log_level(), "trace");
}
