use qmsrs::audit::AuditLogger;
use qmsrs::error::QmsError;
use qmsrs::risk::{
    ComplianceStatus, ControlMeasureType, RiskAcceptability, RiskManagementService,
    RiskProbability, RiskSeverity,
};

fn service() -> RiskManagementService {
    RiskManagementService::new(AuditLogger::new_test())
}

#[test]
fn test_risk_level_calculation() {
    let service = service();
    assert_eq!(service.calculate_risk_level(RiskSeverity::Negligible, RiskProbability::Remote), 1);
    assert_eq!(
        service.calculate_risk_level(RiskSeverity::Catastrophic, RiskProbability::Frequent),
        25
    );
    assert_eq!(service.calculate_risk_level(RiskSeverity::Serious, RiskProbability::Possible), 9);
}

#[test]
fn test_determine_acceptability() {
    let service = service();
    assert_eq!(service.determine_acceptability(1), RiskAcceptability::Acceptable);
    assert_eq!(service.determine_acceptability(5), RiskAcceptability::Acceptable);
    assert_eq!(service.determine_acceptability(10), RiskAcceptability::Tolerable);
    assert_eq!(service.determine_acceptability(20), RiskAcceptability::Unacceptable);
    assert_eq!(service.determine_acceptability(25), RiskAcceptability::Unacceptable);
}

#[test]
fn test_risk_severity_from_u8() {
    assert_eq!(RiskSeverity::from_u8(1).unwrap(), RiskSeverity::Negligible);
    assert_eq!(RiskSeverity::from_u8(5).unwrap(), RiskSeverity::Catastrophic);
    match RiskSeverity::from_u8(6).unwrap_err() {
        QmsError::Validation { field, .. } => assert_eq!(field, "severity"),
        other => panic!("unexpected error: {:?}", other),
    }
}

#[test]
fn test_risk_probability_from_u8() {
    assert_eq!(RiskProbability::from_u8(1).unwrap(), RiskProbability::Remote);
    assert_eq!(RiskProbability::from_u8(5).unwrap(), RiskProbability::Frequent);
    match RiskProbability::from_u8(0).unwrap_err() {
        QmsError::Validation { field, .. } => assert_eq!(field, "probability"),
        other => panic!("unexpected error: {:?}", other),
    }
}

#[test]
fn test_risk_descriptions() {
    assert_eq!(RiskSeverity::Catastrophic.description(), "Death or permanent disability");
    assert_eq!(RiskProbability::Remote.description(), "Very unlikely to occur");
}

#[test]
fn test_create_risk_assessment() {
    let service = service();
    let assessment = service
        .create_risk_assessment(
            "Device X".to_string(),
            "Hazard description".to_string(),
            "Situation".to_string(),
            "Sequence".to_string(),
            "Harm description".to_string(),
            RiskSeverity::Serious,
            RiskProbability::Possible,
            "creator".to_string(),
        )
        .unwrap();
    assert_eq!(assessment.device_name, "Device X");
    assert_eq!(assessment.initial_risk_level, 9);
    assert_eq!(assessment.acceptability, RiskAcceptability::Tolerable);
    assert_eq!(assessment.id.len(), 36);
    assert!(assessment.control_measures.is_empty());
}

#[test]
fn test_residual_risk_and_approval() {
    let service = service();
    let mut assessment = service
        .create_risk_assessment(
            "Device X".to_string(),
            "Hazard".to_string(),
            "Situation".to_string(),
            "Sequence".to_string(),
            "Harm".to_string(),
            RiskSeverity::Catastrophic,
            RiskProbability::Frequent,
            "creator".to_string(),
        )
        .unwrap();
    assert_eq!(assessment.acceptability, RiskAcceptability::Unacceptable);

    // Unacceptable risk with no control measures cannot be approved.
    let denied = service.approve_risk_assessment(&mut assessment, "qa_lead".to_string());
    match denied.unwrap_err() {
        QmsError::Validation { field, .. } => assert_eq!(field, "control_measures"),
        other => panic!("unexpected error: {:?}", other),
    }

    let mut measure = service
        .add_control_measure(
            assessment.id.clone(),
            ControlMeasureType::ProtectiveMeasures,
            "Guard".to_string(),
            "Install guard".to_string(),
            "Inspection".to_string(),
            "engineer".to_string(),
        )
        .unwrap();
    service.verify_control_measure(&mut measure, "verifier".to_string(), true).unwrap();
    assessment.control_measures.push(measure);

    service
        .calculate_residual_risk(
            &mut assessment,
            RiskSeverity::Minor,
            RiskProbability::Remote,
            "engineer".to_string(),
        )
        .unwrap();
    assert_eq!(assessment.residual_risk_level, Some(2));
    assert_eq!(assessment.residual_acceptability, Some(RiskAcceptability::Acceptable));

    service.approve_risk_assessment(&mut assessment, "qa_lead".to_string()).unwrap();
    assert_eq!(assessment.reviewed_by, Some("qa_lead".to_string()));
}

#[test]
fn test_assess_compliance_status() {
    let service = service();
    let a1 = service
        .create_risk_assessment(
            "Device X".to_string(),
            "Hazard".to_string(),
            "Situation".to_string(),
            "Sequence".to_string(),
            "Harm".to_string(),
            RiskSeverity::Catastrophic,
            RiskProbability::Frequent,
            "creator".to_string(),
        )
        .unwrap();
    // An unacceptable risk with no control measures is non-compliant.
    assert_eq!(service.assess_compliance_status(&[a1]), ComplianceStatus::NonCompliant);

    let a2 = service
        .create_risk_assessment(
            "Device Y".to_string(),
            "Hazard".to_string(),
            "Situation".to_string(),
            "Sequence".to_string(),
            "Harm".to_string(),
            RiskSeverity::Negligible,
            RiskProbability::Remote,
            "creator".to_string(),
        )
        .unwrap();
    assert_eq!(service.assess_compliance_status(&[a2]), ComplianceStatus::Compliant);
}
