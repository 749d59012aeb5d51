use qmsrs::{
    required_audit_fields, APPLICATION_VERSION, AUDIT_LOG_ENCRYPTION, FDA_CFR_PART_820_VERSION,
    ISO_13485_VERSION, MAX_AUDIT_RETENTION_DAYS,
};

#[test]
fn test_fda_compliance_constants() {
    assert!(!FDA_CFR_PART_820_VERSION.is_empty());
    assert!(!ISO_13485_VERSION.is_empty());
    assert!(!APPLICATION_VERSION.is_empty());
    assert!(MAX_AUDIT_RETENTION_DAYS >= 2555); // Minimum 7 years
    assert!(AUDIT_LOG_ENCRYPTION); // Must be enabled for compliance
    assert!(!required_audit_fields().is_empty());
    assert!(required_audit_fields().len() >= 7); // Minimum required fields
}

#[test]
fn test_required_audit_fields_completeness() {
    let required_fields = required_audit_fields();
    assert!(required_fields.contains(&"timestamp"));
    assert!(required_fields.contains(&"user_id"));
    assert!(required_fields.contains(&"action"));
    assert!(required_fields.contains(&"resource"));
    assert!(required_fields.contains(&"outcome"));
}
