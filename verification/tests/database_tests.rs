use qmsrs::database::AuditStore;
use qmsrs::error::QmsError;
use qmsrs::logging::{AuditLogEntry, AuditOutcome};

fn entry_with(user: &str, session: &str, timestamp: i64) -> AuditLogEntry {
    AuditLogEntry {
        timestamp,
        user_id: user.to_string(),
        action: "test_action".to_string(),
        resource: "test_resource".to_string(),
        outcome: AuditOutcome::Success,
        ip_address: None,
        session_id: session.to_string(),
        metadata: None,
        compliance_version: "2022".to_string(),
        signature_hash: None,
    }
}

#[test]
fn test_audit_entry_insertion() {
    let mut db = AuditStore::new();

    let entry = AuditLogEntry::new(
        "user123".to_string(),
        "test_action".to_string(),
        "test_resource".to_string(),
        AuditOutcome::Success,
        "session456".to_string(),
    );

    let result = db.insert_audit_entry(&entry);
    assert!(result.is_ok());
}

#[test]
fn test_audit_entry_ids_are_unique_and_sequential() {
    let mut db = AuditStore::new();
    let first = db.insert_audit_entry(&entry_with("u", "s", 100)).unwrap();
    let second = db.insert_audit_entry(&entry_with("u", "s", 90)).unwrap();
    assert_eq!(first, 0);
    assert_eq!(second, 1);
}

#[test]
fn test_audit_entry_insertion_rejects_incomplete() {
    let mut db = AuditStore::new();
    let entry = entry_with("", "session", 100);
    match db.insert_audit_entry(&entry).unwrap_err() {
        QmsError::Validation { field, .. } => assert_eq!(field, "actor_id"),
        other => panic!("unexpected error: {:?}", other),
    }
    assert_eq!(db.len(), 0);
}

#[test]
fn test_audit_trail_retrieval() {
    let mut db = AuditStore::new();

    // Insert test entry
    let entry = AuditLogEntry::new(
        "user123".to_string(),
        "test_action".to_string(),
        "test_resource".to_string(),
        AuditOutcome::Success,
        "session456".to_string(),
    );
    db.insert_audit_entry(&entry).unwrap();

    // Retrieve entries
    let entries = db.get_audit_entries(10, 0, None).unwrap();
    assert_eq!(entries.len(), 1);
    assert_eq!(entries[0].user_id, "user123");
}

#[test]
fn test_audit_trail_retrieval_orders_newest_first() {
    let mut db = AuditStore::new();
    db.insert_audit_entry(&entry_with("u1", "s1", 100)).unwrap();
    db.insert_audit_entry(&entry_with("u1", "s1", 300)).unwrap();
    db.insert_audit_entry(&entry_with("u1", "s1", 200)).unwrap();

    let entries = db.get_audit_entries(10, 0, None).unwrap();
    let stamps: Vec<i64> = entries.iter().map(|e| e.timestamp).collect();
    assert_eq!(stamps, vec![300, 200, 100]);
}

#[test]
fn test_audit_trail_retrieval_pagination_and_filter() {
    let mut db = AuditStore::new();
    db.insert_audit_entry(&entry_with("alice", "s1", 100)).unwrap();
    db.insert_audit_entry(&entry_with("bob", "s2", 200)).unwrap();
    db.insert_audit_entry(&entry_with("alice", "s1", 300)).unwrap();

    let page = db.get_audit_entries(1, 1, None).unwrap();
    assert_eq!(page.len(), 1);
    assert_eq!(page[0].timestamp, 200);

    let alice = db.get_audit_entries(10, 0, Some("alice")).unwrap();
    assert_eq!(alice.len(), 2);
    assert!(alice.iter().all(|e| e.user_id == "alice"));

    match db.get_audit_entries(0, 0, None).unwrap_err() {
        QmsError::Validation { field, .. } => assert_eq!(field, "limit"),
        other => panic!("unexpected error: {:?}", other),
    }
    match db.get_audit_entries(5, -1, None).unwrap_err() {
        QmsError::Validation { field, .. } => assert_eq!(field, "offset"),
        other => panic!("unexpected error: {:?}", other),
    }
}

#[test]
fn test_audit_integrity_verification() {
    let db = AuditStore::new();
    let report = db.verify_audit_integrity().unwrap();

    assert_eq!(report.total_entries, 0);
    assert!(report.integrity_verified);
}

#[test]
fn test_empty_store_reports_verified() {
    let db = AuditStore::new();
    let report = db.verify_audit_integrity().unwrap();
    assert_eq!(report.total_entries, 0);
    assert!(report.integrity_verified);
    assert_eq!(report.gaps_found, 0);
    assert_eq!(report.earliest_entry, None);
    assert_eq!(report.latest_entry, None);
    assert_eq!(report.details, "Empty audit trail");
}

#[test]
fn test_gap_detection_flags_exactly_one_gap() {
    let mut db = AuditStore::new();
    let base: i64 = 1_700_000_000;
    // Timestamps T, T+1h, T+30h with a 24h threshold: one gap, between
    // the second and third entries.
    db.insert_audit_entry(&entry_with("u1", "s1", base)).unwrap();
    db.insert_audit_entry(&entry_with("u1", "s1", base + 3600)).unwrap();
    db.insert_audit_entry(&entry_with("u1", "s1", base + 30 * 3600)).unwrap();

    assert_eq!(db.check_audit_gaps(24), 1);

    let report = db.verify_audit_integrity().unwrap();
    assert_eq!(report.total_entries, 3);
    assert!(!report.integrity_verified);
    assert_eq!(report.gaps_found, 1);
    assert_eq!(report.earliest_entry, Some(base));
    assert_eq!(report.latest_entry, Some(base + 30 * 3600));
    assert_eq!(report.details, "Found 1 potential gaps in audit trail");
}

#[test]
fn test_no_gap_within_threshold() {
    let mut db = AuditStore::new();
    let base: i64 = 1_700_000_000;
    db.insert_audit_entry(&entry_with("u1", "s1", base)).unwrap();
    db.insert_audit_entry(&entry_with("u1", "s1", base + 3600)).unwrap();

    let report = db.verify_audit_integrity().unwrap();
    assert!(report.integrity_verified);
    assert_eq!(report.details, "Audit trail integrity verified");
}

#[test]
fn test_incomplete_session_is_flagged() {
    let mut db = AuditStore::new();
    let base: i64 = 1_700_000_000;
    // A session group with only one entry is an incomplete bracket.
    db.insert_audit_entry(&entry_with("u1", "s1", base)).unwrap();

    let report = db.verify_audit_integrity().unwrap();
    assert!(!report.integrity_verified);
    assert_eq!(report.gaps_found, 1);

    // Adding a second entry to the same bracket completes it.
    let mut db2 = AuditStore::new();
    db2.insert_audit_entry(&entry_with("u1", "s1", base)).unwrap();
    db2.insert_audit_entry(&entry_with("u1", "s1", base + 60)).unwrap();
    let report2 = db2.verify_audit_integrity().unwrap();
    assert!(report2.integrity_verified);
}
