use qmsrs::document::{Document, DocumentManager, DocumentStatus, DocumentType};

fn sample_document() -> Document {
    Document {
        id: "doc-001".to_string(),
        document_number: "SOP-001".to_string(),
        title: "Quality Management System Overview".to_string(),
        version: "1.0".to_string(),
        status: DocumentStatus::Draft,
        document_type: DocumentType::SOP,
        content_hash: "abc123".to_string(),
        file_path: None,
        created_by: "user123".to_string(),
        approved_by: None,
        effective_date: None,
        review_date: None,
        retirement_date: None,
        created_at: 1_700_000_000,
        updated_at: 1_700_000_000,
    }
}

#[test]
fn test_document_creation() {
    let document = sample_document();
    assert!(document.validate().is_ok());
}

#[test]
fn test_document_validation_failure() {
    let mut document = sample_document();
    document.document_number = "".to_string(); // Empty document number
    assert!(document.validate().is_err());
}

#[test]
fn test_document_manager_roundtrip() {
    let mut manager = DocumentManager::new();
    let id = manager.create_document(sample_document()).unwrap();
    assert_eq!(id, "doc-001");
    assert_eq!(manager.len(), 1);

    let found = manager.get_document("doc-001").unwrap();
    assert!(found.is_some());
    assert_eq!(found.unwrap().title, "Quality Management System Overview");

    assert!(manager.get_document("missing").unwrap().is_none());

    let mut blank = sample_document();
    blank.title = "   ".to_string();
    assert!(manager.create_document(blank).is_err());
    assert_eq!(manager.len(), 1);
}
