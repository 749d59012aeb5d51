use qmsrs::audit::{AuditLogger, AuditManager, ComplianceStatus};
use qmsrs::config::SecurityConfig;
use qmsrs::database::AuditStore;
use qmsrs::error::QmsError;
use qmsrs::logging::AuditOutcome;
use qmsrs::security::SecurityManager;

fn test_manager() -> AuditManager {
    let store = AuditStore::new();
    let signer = SecurityManager::new(SecurityConfig::default());
    let key: Vec<u8> = b"0123456789abcdef0123456789abcdef".to_vec();
    AuditManager::new(store, signer, key)
}

#[test]
fn test_audit_manager_creation() {
    let _audit_manager = test_manager();
}

#[test]
fn test_record_then_query_preserves_fields_and_signature() {
    let mut manager = test_manager();

    let id = manager
        .record(
            "user123",
            "document_update",
            "SOP-001",
            AuditOutcome::Success,
            "session456",
            Some("{\"detail\":\"revision\"}".to_string()),
        )
        .unwrap();
    assert_eq!(id, 0);

    let entries = manager.store().get_audit_entries(10, 0, None).unwrap();
    assert_eq!(entries.len(), 1);
    let row = &entries[0];
    assert_eq!(row.user_id, "user123");
    assert_eq!(row.action, "document_update");
    assert_eq!(row.resource, "SOP-001");
    assert_eq!(row.outcome, "SUCCESS");
    assert_eq!(row.session_id, "session456");
    assert_eq!(row.metadata, Some("{\"detail\":\"revision\"}".to_string()));
    assert!(row.signature_hash.is_some());

    // The persisted signature re-verifies against the identity fields.
    assert!(manager.verify_entry(row));
}

#[test]
fn test_tampered_entry_fails_verification() {
    let mut manager = test_manager();
    manager
        .record("user123", "login", "auth", AuditOutcome::Success, "session456", None)
        .unwrap();

    let entries = manager.store().get_audit_entries(10, 0, None).unwrap();
    let row = &entries[0];
    assert!(manager.verify_entry(row));

    // Altering any identity field must break verification.
    let mut tampered = row.clone_row();
    tampered.user_id = "intruder".to_string();
    assert!(!manager.verify_entry(&tampered));

    let mut tampered = row.clone_row();
    tampered.action = "logout".to_string();
    assert!(!manager.verify_entry(&tampered));

    let mut tampered = row.clone_row();
    tampered.resource = "other".to_string();
    assert!(!manager.verify_entry(&tampered));

    let mut tampered = row.clone_row();
    tampered.timestamp += 1;
    assert!(!manager.verify_entry(&tampered));
}

#[test]
fn test_record_rejects_empty_actor() {
    let mut manager = test_manager();
    let result = manager.record("", "login", "auth", AuditOutcome::Success, "s1", None);
    match result.unwrap_err() {
        QmsError::Validation { field, .. } => assert_eq!(field, "actor_id"),
        other => panic!("unexpected error: {:?}", other),
    }
    assert_eq!(manager.store().get_audit_entries(10, 0, None).unwrap().len(), 0);
}

#[test]
fn test_log_action_defaults() {
    let mut manager = test_manager();
    manager.log_action("user1", "export", "report:1", "warning", None).unwrap();
    let entries = manager.store().get_audit_entries(10, 0, None).unwrap();
    assert_eq!(entries.len(), 1);
    assert_eq!(entries[0].outcome, "WARNING");
    assert_eq!(entries[0].ip_address, Some("127.0.0.1".to_string()));
    assert_eq!(entries[0].session_id.len(), 36);
}

#[test]
fn test_compliance_report_generation() {
    let mut manager = test_manager();
    manager
        .record("user123", "login", "auth", AuditOutcome::Success, "s1", None)
        .unwrap();
    manager
        .record("user123", "logout", "auth", AuditOutcome::Success, "s1", None)
        .unwrap();

    let start: i64 = 0;
    let end: i64 = i64::MAX;
    let report = manager.generate_compliance_report(start, end).unwrap();
    assert!(!report.report_id.is_empty());
    assert_eq!(report.report_id.len(), 36);
    assert_eq!(report.period_start, start);
    assert_eq!(report.period_end, end);
    assert_eq!(report.total_audit_entries, 2);
    assert!(report.integrity_verified);
    assert_eq!(report.compliance_status, ComplianceStatus::Compliant);
}

#[test]
fn test_compliance_report_idempotent() {
    let mut manager = test_manager();
    manager
        .record("user123", "login", "auth", AuditOutcome::Success, "s1", None)
        .unwrap();

    let r1 = manager.generate_compliance_report(0, i64::MAX).unwrap();
    let r2 = manager.generate_compliance_report(0, i64::MAX).unwrap();
    assert_eq!(r1.period_start, r2.period_start);
    assert_eq!(r1.period_end, r2.period_end);
    assert_eq!(r1.total_audit_entries, r2.total_audit_entries);
    assert_eq!(r1.integrity_verified, r2.integrity_verified);
    assert_eq!(r1.compliance_status, r2.compliance_status);
    assert_eq!(r1.details, r2.details);
}

#[test]
fn test_compliance_report_window_counts() {
    let mut manager = test_manager();
    manager
        .record("u", "a", "r", AuditOutcome::Success, "s1", None)
        .unwrap();
    // Window far in the past holds no entries, but the integrity verdict
    // still covers the whole store.
    let report = manager.generate_compliance_report(0, 1).unwrap();
    assert_eq!(report.total_audit_entries, 0);
}

#[test]
fn test_audit_logger_validates_outcome() {
    let logger = AuditLogger::new("session-1".to_string());
    assert!(logger.log_event("user1", "login", "auth", "SUCCESS", None).is_ok());
    assert!(logger.log_event("user1", "login", "auth", "FAILURE", None).is_ok());
    assert!(logger.log_event("user1", "login", "auth", "WARNING", None).is_ok());

    match logger.log_event("user1", "login", "auth", "sideways", None).unwrap_err() {
        QmsError::Validation { field, .. } => assert_eq!(field, "outcome"),
        other => panic!("unexpected error: {:?}", other),
    }

    // Required fields are still enforced.
    assert!(logger.log_event("", "login", "auth", "SUCCESS", None).is_err());
}

#[test]
fn test_audit_logger_fresh_session() {
    let logger = AuditLogger::new_test();
    assert!(logger.log_event("user1", "login", "auth", "SUCCESS", None).is_ok());
}

#[test]
fn test_record_with_comment_folds_metadata() {
    let mut manager = test_manager();
    manager
        .record_with_comment(
            "user123",
            "capa_created",
            "capa:1",
            AuditOutcome::Success,
            "s1",
            "initial investigation opened".to_string(),
        )
        .unwrap();
    let entries = manager.store().get_audit_entries(1, 0, None).unwrap();
    assert_eq!(entries[0].metadata, Some("initial investigation opened".to_string()));
}
