use qmsrs::error::QmsError;
use qmsrs::logging::{AuditLogEntry, AuditOutcome};

#[test]
fn test_audit_outcome_as_str() {
    assert_eq!(AuditOutcome::Success.as_str(), "SUCCESS");
    assert_eq!(AuditOutcome::Failure.as_str(), "FAILURE");
    assert_eq!(AuditOutcome::Warning.as_str(), "WARNING");
}

#[test]
fn test_audit_log_entry_creation() {
    let entry = AuditLogEntry::new(
        "user123".to_string(),
        "login".to_string(),
        "authentication_system".to_string(),
        AuditOutcome::Success,
        "session456".to_string(),
    );

    assert_eq!(entry.user_id, "user123");
    assert_eq!(entry.action, "login");
    assert_eq!(entry.resource, "authentication_system");
    assert_eq!(entry.outcome.as_str(), "SUCCESS");
    assert_eq!(entry.session_id, "session456");
}

#[test]
fn test_audit_log_entry_validation() {
    let mut entry = AuditLogEntry::new(
        "user123".to_string(),
        "login".to_string(),
        "auth".to_string(),
        AuditOutcome::Success,
        "session456".to_string(),
    );

    // Valid entry should pass
    assert!(entry.validate().is_ok());

    // Empty user_id should fail
    entry.user_id = String::new();
    assert!(entry.validate().is_err());
}

#[test]
fn test_audit_log_entry_validation_field_order() {
    let entry = AuditLogEntry::new(
        String::new(),
        String::new(),
        "auth".to_string(),
        AuditOutcome::Success,
        "session456".to_string(),
    );

    match entry.validate().unwrap_err() {
        QmsError::Validation { field, .. } => assert_eq!(field, "actor_id"),
        other => panic!("unexpected error: {:?}", other),
    }
}

#[test]
fn test_audit_log_macro() {
    let entry = AuditLogEntry::new(
        "user123".to_string(),
        "test_action".to_string(),
        "test_resource".to_string(),
        AuditOutcome::Success,
        "session456".to_string(),
    );

    assert_eq!(entry.user_id, "user123");
    assert_eq!(entry.action, "test_action");
}

#[test]
fn test_audit_log_entry_with_metadata() {
    let metadata = "{\"additional_info\":\"test data\",\"severity\":\"high\"}".to_string();

    let entry = AuditLogEntry::new(
        "user123".to_string(),
        "document_update".to_string(),
        "SOP-001".to_string(),
        AuditOutcome::Success,
        "session456".to_string(),
    )
    .with_metadata(metadata.clone());

    assert_eq!(entry.metadata, Some(metadata));
}
