use qmsrs::audit::AuditManager;
use qmsrs::capa::{ActionStatus, CapaPriority, CapaService, CapaStatus, CapaType};
use qmsrs::config::SecurityConfig;
use qmsrs::database::AuditStore;
use qmsrs::security::SecurityManager;

fn setup_test_service() -> CapaService {
    let store = AuditStore::new();
    let signer = SecurityManager::new(SecurityConfig::default());
    let key: Vec<u8> = b"0123456789abcdef0123456789abcdef".to_vec();
    let audit_manager = AuditManager::new(store, signer, key);
    CapaService::new(audit_manager)
}

#[test]
fn test_status_transition_validation() {
    let status = CapaStatus::Identified;

    // Valid transition
    assert!(status.can_transition_to(&CapaStatus::InvestigationInProgress));

    // Invalid transition
    assert!(!status.can_transition_to(&CapaStatus::Closed));

    // Can always cancel
    assert!(status.can_transition_to(&CapaStatus::Cancelled));
}

#[test]
fn test_capa_priority_levels() {
    assert_eq!(CapaPriority::Critical.as_str(), "Critical");
    assert_eq!(CapaPriority::High.as_str(), "High");
    assert_eq!(CapaPriority::Medium.as_str(), "Medium");
    assert_eq!(CapaPriority::Low.as_str(), "Low");
}

#[test]
fn test_capa_type_classification() {
    assert_eq!(CapaType::Corrective.as_str(), "Corrective");
    assert_eq!(CapaType::Preventive.as_str(), "Preventive");
    assert_eq!(CapaType::Combined.as_str(), "Combined");
}

#[test]
fn test_action_status_workflow() {
    let action_status = ActionStatus::Planned;
    assert_eq!(action_status, ActionStatus::Planned);

    // Test all status variants exist
    let _in_progress = ActionStatus::InProgress;
    let _completed = ActionStatus::Completed;
    let _verified = ActionStatus::Verified;
    let _overdue = ActionStatus::Overdue;
}

#[test]
fn test_create_capa_corrective() {
    let mut service = setup_test_service();

    let capa = service
        .create_capa(
            "Critical Safety Issue".to_string(),
            "Device malfunction causing safety concern".to_string(),
            CapaType::Corrective,
            CapaPriority::Critical,
            "user123".to_string(),
            "engineer456".to_string(),
            Some(2_000_000_000),
        )
        .unwrap();

    assert_eq!(capa.title, "Critical Safety Issue");
    assert_eq!(capa.capa_type, CapaType::Corrective);
    assert_eq!(capa.priority, CapaPriority::Critical);
    assert_eq!(capa.status, CapaStatus::Identified);
    assert_eq!(capa.initiator_id, "user123");
    assert_eq!(capa.assigned_to, "engineer456");
    assert!(capa.due_date.is_some());
}

#[test]
fn test_update_status_valid() {
    let mut service = setup_test_service();
    let mut capa = service
        .create_capa(
            "Test CAPA".to_string(),
            "Test description".to_string(),
            CapaType::Corrective,
            CapaPriority::Medium,
            "user123".to_string(),
            "engineer456".to_string(),
            None,
        )
        .unwrap();

    let result = service.update_status(
        &mut capa,
        CapaStatus::InvestigationInProgress,
        "user123",
        Some("Starting investigation".to_string()),
    );

    assert!(result.is_ok());
    assert_eq!(capa.status, CapaStatus::InvestigationInProgress);
}

#[test]
fn test_update_status_invalid_transition() {
    let mut service = setup_test_service();
    let mut capa = service
        .create_capa(
            "Test CAPA".to_string(),
            "Test description".to_string(),
            CapaType::Corrective,
            CapaPriority::Medium,
            "user123".to_string(),
            "engineer456".to_string(),
            None,
        )
        .unwrap();

    let result = service.update_status(&mut capa, CapaStatus::Closed, "user123", None);

    assert!(result.is_err());
    assert_eq!(capa.status, CapaStatus::Identified); // Should remain unchanged
}

#[test]
fn test_add_corrective_action() {
    let mut service = setup_test_service();
    let mut capa = service
        .create_capa(
            "Test CAPA".to_string(),
            "Test description".to_string(),
            CapaType::Corrective,
            CapaPriority::Medium,
            "user123".to_string(),
            "engineer456".to_string(),
            None,
        )
        .unwrap();

    let action_id = service
        .add_corrective_action(
            &mut capa,
            "Fix the issue".to_string(),
            "engineer456".to_string(),
            2_000_000_000,
            "Testing and validation".to_string(),
            "user123",
        )
        .unwrap();

    assert_eq!(capa.corrective_actions.len(), 1);
    assert_eq!(capa.corrective_actions[0].id, action_id);
    assert_eq!(capa.corrective_actions[0].description, "Fix the issue");
    assert_eq!(capa.corrective_actions[0].status, ActionStatus::Planned);
}

#[test]
fn test_complete_action() {
    let mut service = setup_test_service();
    let mut capa = service
        .create_capa(
            "Test CAPA".to_string(),
            "Test description".to_string(),
            CapaType::Corrective,
            CapaPriority::Medium,
            "user123".to_string(),
            "engineer456".to_string(),
            None,
        )
        .unwrap();

    let action_id = service
        .add_corrective_action(
            &mut capa,
            "Fix the issue".to_string(),
            "engineer456".to_string(),
            2_000_000_000,
            "Testing and validation".to_string(),
            "user123",
        )
        .unwrap();

    let evidence = vec!["test_report.pdf".to_string(), "validation_results.xlsx".to_string()];
    let result = service.complete_action(&mut capa, &action_id, evidence.clone(), "engineer456");

    assert!(result.is_ok());
    assert_eq!(capa.corrective_actions[0].status, ActionStatus::Completed);
    assert!(capa.corrective_actions[0].completed_date.is_some());
    assert_eq!(capa.corrective_actions[0].evidence, evidence);
}

#[test]
fn test_complete_action_unknown_id() {
    let mut service = setup_test_service();
    let mut capa = service
        .create_capa(
            "Test CAPA".to_string(),
            "Test description".to_string(),
            CapaType::Corrective,
            CapaPriority::Medium,
            "user123".to_string(),
            "engineer456".to_string(),
            None,
        )
        .unwrap();

    let result = service.complete_action(&mut capa, "missing-action", Vec::new(), "engineer456");
    assert!(result.is_err());
}

#[test]
fn test_verify_effectiveness() {
    let mut service = setup_test_service();
    let mut capa = service
        .create_capa(
            "Test CAPA".to_string(),
            "Test description".to_string(),
            CapaType::Corrective,
            CapaPriority::Medium,
            "user123".to_string(),
            "engineer456".to_string(),
            None,
        )
        .unwrap();

    let result = service.verify_effectiveness(
        &mut capa,
        "Statistical analysis".to_string(),
        "Defect rate reduced by 95%".to_string(),
        true,
        "qa_manager".to_string(),
        vec![],
    );

    assert!(result.is_ok());
    assert!(capa.effectiveness_verification.is_some());

    let verification = capa.effectiveness_verification.unwrap();
    assert_eq!(verification.verifier_id, "qa_manager");
    assert_eq!(verification.is_effective, true);
    assert_eq!(verification.follow_up_required, false);
}

#[test]
fn test_capa_metrics() {
    let mut service = setup_test_service();

    let mut capas = vec![
        service
            .create_capa(
                "CAPA 1".to_string(),
                "Description 1".to_string(),
                CapaType::Corrective,
                CapaPriority::Critical,
                "user1".to_string(),
                "eng1".to_string(),
                Some(1), // long past due
            )
            .unwrap(),
        service
            .create_capa(
                "CAPA 2".to_string(),
                "Description 2".to_string(),
                CapaType::Preventive,
                CapaPriority::High,
                "user2".to_string(),
                "eng2".to_string(),
                Some(i64::MAX), // far in the future
            )
            .unwrap(),
    ];

    // Follow proper workflow to close one CAPA
    service
        .update_status(&mut capas[1], CapaStatus::InvestigationInProgress, "user2", None)
        .unwrap();
    service.update_status(&mut capas[1], CapaStatus::RootCauseAnalysis, "user2", None).unwrap();
    service
        .update_status(&mut capas[1], CapaStatus::CorrectiveActionInProgress, "user2", None)
        .unwrap();
    service
        .update_status(&mut capas[1], CapaStatus::EffectivenessVerification, "user2", None)
        .unwrap();
    service.update_status(&mut capas[1], CapaStatus::Closed, "user2", None).unwrap();

    let metrics = service.get_capa_metrics(&capas);

    assert_eq!(metrics.total_count, 2);
    assert_eq!(metrics.overdue_count, 1);
    assert_eq!(metrics.closed_count, 1);
    assert_eq!(metrics.priority_counts[0], ("Critical".to_string(), 1));
    assert_eq!(metrics.priority_counts[1], ("High".to_string(), 1));
    assert_eq!(metrics.status_counts[6], ("Closed".to_string(), 1));
}
