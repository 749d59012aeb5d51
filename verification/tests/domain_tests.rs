use qmsrs::post_market::{AdverseEvent, Severity};
use qmsrs::supplier::{count_suppliers_with_status, Supplier, SupplierStatus};
use qmsrs::training::{TrainingMetrics, TrainingRecord, TrainingStatus};
use qmsrs::ui::TabState;

fn supplier(name: &str, status: SupplierStatus) -> Supplier {
    Supplier {
        id: format!("sup-{}", name),
        name: name.to_string(),
        contact_info: None,
        status,
        qualification_date: None,
        qualification_expiry_date: None,
        approved_by: None,
        created_at: 1_700_000_000,
        updated_at: 1_700_000_000,
    }
}

fn training(status: TrainingStatus) -> TrainingRecord {
    TrainingRecord {
        id: "t-1".to_string(),
        employee_id: "emp-1".to_string(),
        training_item: "GMP basics".to_string(),
        mandatory: true,
        assigned_by: "qa".to_string(),
        due_date: 20_000,
        completion_date: None,
        status,
        created_at: 1_700_000_000,
        updated_at: 1_700_000_000,
    }
}

#[test]
fn test_adverse_event_creation() {
    let event = AdverseEvent::new(
        "reporter-1".to_string(),
        "Unexpected shutdown".to_string(),
        Severity::Major,
    );
    assert_eq!(event.id.len(), 36);
    assert_eq!(event.reporter, "reporter-1");
    assert_eq!(event.description, "Unexpected shutdown");
    assert_eq!(event.severity, Severity::Major);
}

#[test]
fn test_supplier_status_counts() {
    let suppliers = vec![
        supplier("a", SupplierStatus::Qualified),
        supplier("b", SupplierStatus::Pending),
        supplier("c", SupplierStatus::Qualified),
        supplier("d", SupplierStatus::Disqualified),
    ];
    assert_eq!(count_suppliers_with_status(&suppliers, SupplierStatus::Qualified), 2);
    assert_eq!(count_suppliers_with_status(&suppliers, SupplierStatus::Pending), 1);
    assert_eq!(count_suppliers_with_status(&suppliers, SupplierStatus::Disqualified), 1);
}

#[test]
fn test_training_metrics() {
    let records = vec![
        training(TrainingStatus::Completed),
        training(TrainingStatus::Completed),
        training(TrainingStatus::Overdue),
        training(TrainingStatus::Pending),
        training(TrainingStatus::InProgress),
    ];
    let metrics = TrainingMetrics::calculate_metrics(&records);
    assert_eq!(metrics.total_count, 5);
    assert_eq!(metrics.completed, 2);
    assert_eq!(metrics.overdue, 1);
    assert_eq!(metrics.pending, 2);

    let empty = TrainingMetrics::calculate_metrics(&[]);
    assert_eq!(empty.total_count, 0);
    assert_eq!(empty.completed, 0);
}

#[test]
fn test_tab_navigation() {
    let mut tab = TabState::Dashboard;
    tab = tab.next();
    assert_eq!(tab, TabState::Documents);
    tab = tab.next();
    assert_eq!(tab, TabState::AuditTrail);
    tab = tab.previous();
    assert_eq!(tab, TabState::Documents);
    assert_eq!(TabState::Dashboard.previous(), TabState::Reports);
    assert_eq!(TabState::Reports.next(), TabState::Dashboard);
}
