use qmsrs::error::{ErrorSeverity, QmsError};

#[test]
fn test_error_codes() {
    assert_eq!(QmsError::Database { message: "test".to_string() }.error_code(), "DB_ERROR");
    assert_eq!(QmsError::AuditTrail { message: "test".to_string() }.error_code(), "AUDIT_ERROR");
    assert_eq!(QmsError::Security { message: "test".to_string() }.error_code(), "SEC_ERROR");
    assert_eq!(
        QmsError::NotFound { resource: "test".to_string(), id: "123".to_string() }.error_code(),
        "NOT_FOUND"
    );
}

#[test]
fn test_error_severity() {
    assert_eq!(
        QmsError::AuditTrail { message: "test".to_string() }.severity(),
        ErrorSeverity::Critical
    );
    assert_eq!(
        QmsError::Security { message: "test".to_string() }.severity(),
        ErrorSeverity::Critical
    );
    assert_eq!(
        QmsError::UserInterface { message: "test".to_string() }.severity(),
        ErrorSeverity::Low
    );
    assert_eq!(
        QmsError::NotFound { resource: "test".to_string(), id: "123".to_string() }.severity(),
        ErrorSeverity::Medium
    );
}

#[test]
fn test_fda_notification_requirement() {
    assert!(QmsError::AuditTrail { message: "test".to_string() }.requires_fda_notification());
    assert!(QmsError::Security { message: "test".to_string() }.requires_fda_notification());
    assert!(!QmsError::UserInterface { message: "test".to_string() }.requires_fda_notification());
    assert!(
        !QmsError::NotFound { resource: "test".to_string(), id: "123".to_string() }
            .requires_fda_notification()
    );
}

#[test]
fn test_error_severity_as_str() {
    assert_eq!(ErrorSeverity::Low.as_str(), "LOW");
    assert_eq!(ErrorSeverity::Medium.as_str(), "MEDIUM");
    assert_eq!(ErrorSeverity::High.as_str(), "HIGH");
    assert_eq!(ErrorSeverity::Critical.as_str(), "CRITICAL");
}
