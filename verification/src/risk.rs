//! Risk management: severity/probability scales, the risk matrix, the
//! acceptability policy and the assessment workflow, every decision
//! feeding the audit trail.

use vstd::prelude::*;
use vstd::string::StringExecFns;
use crate::audit::AuditLogger;
use crate::clock;
use crate::error::QmsError;
use crate::ident;

verus! {

/// Risk severity levels on the one-to-five scale.
#[derive(Debug, Clone, Copy, PartialEq, Eq, Structural)]
pub enum RiskSeverity {
    Negligible,
    Minor,
    Serious,
    Critical,
    Catastrophic,
}

/// Risk probability levels on the one-to-five scale.
#[derive(Debug, Clone, Copy, PartialEq, Eq, Structural)]
pub enum RiskProbability {
    Remote,
    Unlikely,
    Possible,
    Probable,
    Frequent,
}

/// Risk acceptability levels.
#[derive(Debug, Clone, Copy, PartialEq, Eq, Structural)]
pub enum RiskAcceptability {
    Acceptable,
    Tolerable,
    Unacceptable,
}

/// Risk control measure types.
#[derive(Debug, Clone, Copy, PartialEq, Eq, Structural)]
pub enum ControlMeasureType {
    InherentSafety,
    ProtectiveMeasures,
    Information,
}

/// Risk assessment status.
#[derive(Debug, Clone, Copy, PartialEq, Eq, Structural)]
pub enum RiskAssessmentStatus {
    Draft,
    UnderReview,
    Approved,
    RequiresUpdate,
    Archived,
}

/// Control measure verification status.
#[derive(Debug, Clone, Copy, PartialEq, Eq, Structural)]
pub enum VerificationStatus {
    Pending,
    InProgress,
    Verified,
    Failed,
    RequiresReview,
}

/// Overall compliance status of a set of assessments.
#[derive(Debug, Clone, Copy, PartialEq, Eq, Structural)]
pub enum ComplianceStatus {
    Compliant,
    RequiresAttention,
    NonCompliant,
}

/// The numeric value of a severity level.
pub open spec fn severity_num(s: RiskSeverity) -> int {
    match s {
        RiskSeverity::Negligible => 1,
        RiskSeverity::Minor => 2,
        RiskSeverity::Serious => 3,
        RiskSeverity::Critical => 4,
        RiskSeverity::Catastrophic => 5,
    }
}

/// The numeric value of a probability level.
pub open spec fn probability_num(p: RiskProbability) -> int {
    match p {
        RiskProbability::Remote => 1,
        RiskProbability::Unlikely => 2,
        RiskProbability::Possible => 3,
        RiskProbability::Probable => 4,
        RiskProbability::Frequent => 5,
    }
}

/// The acceptability the policy assigns to a risk level: one to five is
/// acceptable, six to fifteen tolerable, anything higher unacceptable.
pub open spec fn acceptability_of(risk_level: int) -> RiskAcceptability {
    if 1 <= risk_level <= 5 {
        RiskAcceptability::Acceptable
    } else if 6 <= risk_level <= 15 {
        RiskAcceptability::Tolerable
    } else {
        RiskAcceptability::Unacceptable
    }
}

impl RiskSeverity {
    /// Read a severity level from its numeric value; values outside one
    /// to five are rejected.
    pub fn from_u8(value: u8) -> (r: Result<RiskSeverity, QmsError>)
        ensures
            value == 1 ==> (r matches Ok(s) && s is Negligible),
            value == 2 ==> (r matches Ok(s) && s is Minor),
            value == 3 ==> (r matches Ok(s) && s is Serious),
            value == 4 ==> (r matches Ok(s) && s is Critical),
            value == 5 ==> (r matches Ok(s) && s is Catastrophic),
            (value == 0 || value > 5) ==> (r matches Err(QmsError::Validation { field, .. })
                && field@ == "severity"@),
            r matches Ok(s) ==> severity_num(s) == value as int,
    {
        match value {
            1 => Ok(RiskSeverity::Negligible),
            2 => Ok(RiskSeverity::Minor),
            3 => Ok(RiskSeverity::Serious),
            4 => Ok(RiskSeverity::Critical),
            5 => Ok(RiskSeverity::Catastrophic),
            _ => Err(QmsError::Validation {
                field: String::from_str("severity"),
                message: String::from_str("Risk severity must be between 1 and 5"),
            }),
        }
    }

    /// The numeric value of this severity level.
    pub fn as_u8(&self) -> (r: u8)
        ensures
            r as int == severity_num(*self),
    {
        match self {
            RiskSeverity::Negligible => 1,
            RiskSeverity::Minor => 2,
            RiskSeverity::Serious => 3,
            RiskSeverity::Critical => 4,
            RiskSeverity::Catastrophic => 5,
        }
    }

    /// Human-readable description of the harm at this level.
    pub fn description(&self) -> (r: &'static str)
        ensures
            *self is Negligible ==> r@ == "Negligible harm"@,
            *self is Minor ==> r@ == "Minor harm or injury"@,
            *self is Serious ==> r@ == "Serious injury"@,
            *self is Critical ==> r@ == "Severe injury or illness"@,
            *self is Catastrophic ==> r@ == "Death or permanent disability"@,
    {
        match self {
            RiskSeverity::Negligible => "Negligible harm",
            RiskSeverity::Minor => "Minor harm or injury",
            RiskSeverity::Serious => "Serious injury",
            RiskSeverity::Critical => "Severe injury or illness",
            RiskSeverity::Catastrophic => "Death or permanent disability",
        }
    }
}

impl RiskProbability {
    /// Read a probability level from its numeric value; values outside
    /// one to five are rejected.
    pub fn from_u8(value: u8) -> (r: Result<RiskProbability, QmsError>)
        ensures
            value == 1 ==> (r matches Ok(p) && p is Remote),
            value == 2 ==> (r matches Ok(p) && p is Unlikely),
            value == 3 ==> (r matches Ok(p) && p is Possible),
            value == 4 ==> (r matches Ok(p) && p is Probable),
            value == 5 ==> (r matches Ok(p) && p is Frequent),
            (value == 0 || value > 5) ==> (r matches Err(QmsError::Validation { field, .. })
                && field@ == "probability"@),
            r matches Ok(p) ==> probability_num(p) == value as int,
    {
        match value {
            1 => Ok(RiskProbability::Remote),
            2 => Ok(RiskProbability::Unlikely),
            3 => Ok(RiskProbability::Possible),
            4 => Ok(RiskProbability::Probable),
            5 => Ok(RiskProbability::Frequent),
            _ => Err(QmsError::Validation {
                field: String::from_str("probability"),
                message: String::from_str("Risk probability must be between 1 and 5"),
            }),
        }
    }

    /// The numeric value of this probability level.
    pub fn as_u8(&self) -> (r: u8)
        ensures
            r as int == probability_num(*self),
    {
        match self {
            RiskProbability::Remote => 1,
            RiskProbability::Unlikely => 2,
            RiskProbability::Possible => 3,
            RiskProbability::Probable => 4,
            RiskProbability::Frequent => 5,
        }
    }

    /// Human-readable description of the likelihood at this level.
    pub fn description(&self) -> (r: &'static str)
        ensures
            *self is Remote ==> r@ == "Very unlikely to occur"@,
            *self is Unlikely ==> r@ == "Unlikely to occur"@,
            *self is Possible ==> r@ == "Possible to occur"@,
            *self is Probable ==> r@ == "Likely to occur"@,
            *self is Frequent ==> r@ == "Very likely or certain to occur"@,
    {
        match self {
            RiskProbability::Remote => "Very unlikely to occur",
            RiskProbability::Unlikely => "Unlikely to occur",
            RiskProbability::Possible => "Possible to occur",
            RiskProbability::Probable => "Likely to occur",
            RiskProbability::Frequent => "Very likely or certain to occur",
        }
    }
}

/// Risk control measure.
#[derive(Debug)]
pub struct ControlMeasure {
    /// Unique identifier.
    pub id: String,
    /// The assessment the measure belongs to.
    pub risk_assessment_id: String,
    /// Kind of control.
    pub measure_type: ControlMeasureType,
    /// What the measure is.
    pub description: String,
    /// How it is implemented.
    pub implementation_details: String,
    /// How its effectiveness is verified.
    pub effectiveness_verification: String,
    /// Verification status.
    pub verification_status: VerificationStatus,
    /// Who implemented it.
    pub implemented_by: String,
    /// When it was implemented, seconds since the Unix epoch.
    pub implemented_at: i64,
    /// Who verified it, once verified.
    pub verified_by: Option<String>,
    /// When it was verified, seconds since the Unix epoch.
    pub verified_at: Option<i64>,
}

/// Risk assessment.
#[derive(Debug)]
pub struct RiskAssessment {
    /// Unique identifier.
    pub id: String,
    /// Device under assessment.
    pub device_name: String,
    /// The hazard.
    pub hazard_description: String,
    /// The hazardous situation.
    pub hazardous_situation: String,
    /// The foreseeable sequence of events.
    pub foreseeable_sequence: String,
    /// The harm.
    pub harm_description: String,
    /// Initial severity.
    pub initial_severity: RiskSeverity,
    /// Initial probability.
    pub initial_probability: RiskProbability,
    /// Initial risk level: severity times probability.
    pub initial_risk_level: u8,
    /// Acceptability of the initial risk.
    pub acceptability: RiskAcceptability,
    /// Control measures.
    pub control_measures: Vec<ControlMeasure>,
    /// Residual severity, once calculated.
    pub residual_severity: Option<RiskSeverity>,
    /// Residual probability, once calculated.
    pub residual_probability: Option<RiskProbability>,
    /// Residual risk level, once calculated.
    pub residual_risk_level: Option<u8>,
    /// Acceptability of the residual risk, once calculated.
    pub residual_acceptability: Option<RiskAcceptability>,
    /// Who created the assessment.
    pub created_by: String,
    /// Creation instant, seconds since the Unix epoch.
    pub created_at: i64,
    /// Who last updated it.
    pub updated_by: Option<String>,
    /// Last update instant.
    pub updated_at: Option<i64>,
    /// Who reviewed it.
    pub reviewed_by: Option<String>,
    /// Review instant.
    pub reviewed_at: Option<i64>,
    /// Workflow status.
    pub status: RiskAssessmentStatus,
}

/// Whether some assessment carries an unacceptable risk with no control
/// measures.
pub open spec fn any_unacceptable_uncontrolled(s: Seq<RiskAssessment>) -> bool {
    exists|i: int|
        0 <= i < s.len() && (#[trigger] s[i]).acceptability is Unacceptable
            && s[i].control_measures@.len() == 0
}

/// Whether some assessment carries a control measure that is not yet
/// verified.
pub open spec fn any_unverified_control(s: Seq<RiskAssessment>) -> bool {
    exists|i: int, j: int|
        0 <= i < s.len() && 0 <= j < (#[trigger] s[i]).control_measures@.len() && !((
        #[trigger] s[i].control_measures@[j]).verification_status is Verified)
}

/// Risk management service.
pub struct RiskManagementService {
    audit_logger: AuditLogger,
}

impl RiskManagementService {
    /// The session bracket the service's audit events carry.
    pub closed spec fn session(self) -> Seq<char> {
        self.audit_logger.session()
    }

    /// Create a new risk management service.
    pub fn new(audit_logger: AuditLogger) -> (r: RiskManagementService)
        ensures
            r.session() == audit_logger.session(),
    {
        RiskManagementService { audit_logger }
    }

    /// Risk level from the risk matrix: severity times probability.
    pub fn calculate_risk_level(&self, severity: RiskSeverity, probability: RiskProbability) -> (r:
        u8)
        ensures
            r as int == severity_num(severity) * probability_num(probability),
    {
        severity.as_u8() * probability.as_u8()
    }

    /// The acceptability the policy assigns to a risk level.
    pub fn determine_acceptability(&self, risk_level: u8) -> (r: RiskAcceptability)
        ensures
            r == acceptability_of(risk_level as int),
    {
        if 1 <= risk_level && risk_level <= 5 {
            RiskAcceptability::Acceptable
        } else if 6 <= risk_level && risk_level <= 15 {
            RiskAcceptability::Tolerable
        } else {
            RiskAcceptability::Unacceptable
        }
    }

    /// Create a new risk assessment in the draft state, with its risk
    /// level and acceptability computed from the risk matrix.
    pub fn create_risk_assessment(
        &self,
        device_name: String,
        hazard_description: String,
        hazardous_situation: String,
        foreseeable_sequence: String,
        harm_description: String,
        initial_severity: RiskSeverity,
        initial_probability: RiskProbability,
        created_by: String,
    ) -> (r: Result<RiskAssessment, QmsError>)
        ensures
            created_by@.len() > 0 && self.session().len() > 0 ==> r is Ok,
            r matches Ok(a) ==> ({
                &&& a.id@.len() == 36
                &&& a.device_name@ == device_name@
                &&& a.hazard_description@ == hazard_description@
                &&& a.hazardous_situation@ == hazardous_situation@
                &&& a.foreseeable_sequence@ == foreseeable_sequence@
                &&& a.harm_description@ == harm_description@
                &&& a.initial_severity == initial_severity
                &&& a.initial_probability == initial_probability
                &&& a.initial_risk_level as int == severity_num(initial_severity)
                    * probability_num(initial_probability)
                &&& a.acceptability == acceptability_of(
                    severity_num(initial_severity) * probability_num(initial_probability),
                )
                &&& a.control_measures@.len() == 0
                &&& a.residual_risk_level is None
                &&& a.created_by@ == created_by@
                &&& a.status is Draft
            }),
    {
        let id = ident::fresh_id();
        let initial_risk_level = self.calculate_risk_level(initial_severity, initial_probability);
        let acceptability = self.determine_acceptability(initial_risk_level);
        proof {
            reveal_strlit("risk_assessment:");
            reveal_strlit("CREATE_RISK_ASSESSMENT");
            reveal_strlit("SUCCESS");
        }
        let resource = String::from_str("risk_assessment:").concat(id.as_str());
        match self.audit_logger.log_event(
            created_by.as_str(),
            "CREATE_RISK_ASSESSMENT",
            resource.as_str(),
            "SUCCESS",
            Some(device_name.clone()),
        ) {
            Ok(()) => {},
            Err(e) => {
                return Err(e);
            },
        }
        Ok(RiskAssessment {
            id,
            device_name,
            hazard_description,
            hazardous_situation,
            foreseeable_sequence,
            harm_description,
            initial_severity,
            initial_probability,
            initial_risk_level,
            acceptability,
            control_measures: Vec::new(),
            residual_severity: None,
            residual_probability: None,
            residual_risk_level: None,
            residual_acceptability: None,
            created_by,
            created_at: clock::now_unix(),
            updated_by: None,
            updated_at: None,
            reviewed_by: None,
            reviewed_at: None,
            status: RiskAssessmentStatus::Draft,
        })
    }

    /// Create a control measure in the pending state for an assessment.
    pub fn add_control_measure(
        &self,
        risk_assessment_id: String,
        measure_type: ControlMeasureType,
        description: String,
        implementation_details: String,
        effectiveness_verification: String,
        implemented_by: String,
    ) -> (r: Result<ControlMeasure, QmsError>)
        ensures
            implemented_by@.len() > 0 && self.session().len() > 0 ==> r is Ok,
            r matches Ok(m) ==> ({
                &&& m.id@.len() == 36
                &&& m.risk_assessment_id@ == risk_assessment_id@
                &&& m.measure_type == measure_type
                &&& m.description@ == description@
                &&& m.implementation_details@ == implementation_details@
                &&& m.effectiveness_verification@ == effectiveness_verification@
                &&& m.verification_status is Pending
                &&& m.implemented_by@ == implemented_by@
                &&& m.verified_by is None
                &&& m.verified_at is None
            }),
    {
        let id = ident::fresh_id();
        proof {
            reveal_strlit("control_measure:");
            reveal_strlit("ADD_CONTROL_MEASURE");
            reveal_strlit("SUCCESS");
        }
        let resource = String::from_str("control_measure:").concat(id.as_str());
        match self.audit_logger.log_event(
            implemented_by.as_str(),
            "ADD_CONTROL_MEASURE",
            resource.as_str(),
            "SUCCESS",
            Some(description.clone()),
        ) {
            Ok(()) => {},
            Err(e) => {
                return Err(e);
            },
        }
        Ok(ControlMeasure {
            id,
            risk_assessment_id,
            measure_type,
            description,
            implementation_details,
            effectiveness_verification,
            verification_status: VerificationStatus::Pending,
            implemented_by,
            implemented_at: clock::now_unix(),
            verified_by: None,
            verified_at: None,
        })
    }

    /// Calculate the residual risk of an assessment after control
    /// measures, from the same risk matrix and policy.
    pub fn calculate_residual_risk(
        &self,
        risk_assessment: &mut RiskAssessment,
        residual_severity: RiskSeverity,
        residual_probability: RiskProbability,
        calculated_by: String,
    ) -> (r: Result<(), QmsError>)
        ensures
            final(risk_assessment).residual_severity == Some(residual_severity),
            final(risk_assessment).residual_probability == Some(residual_probability),
            (final(risk_assessment).residual_risk_level matches Some(l) && l as int
                == severity_num(residual_severity) * probability_num(residual_probability)),
            final(risk_assessment).residual_acceptability == Some(
                acceptability_of(
                    severity_num(residual_severity) * probability_num(residual_probability),
                ),
            ),
            final(risk_assessment).status == old(risk_assessment).status,
            calculated_by@.len() > 0 && self.session().len() > 0 ==> r is Ok,
    {
        let residual_risk_level = self.calculate_risk_level(residual_severity, residual_probability);
        let residual_acceptability = self.determine_acceptability(residual_risk_level);
        risk_assessment.residual_severity = Some(residual_severity);
        risk_assessment.residual_probability = Some(residual_probability);
        risk_assessment.residual_risk_level = Some(residual_risk_level);
        risk_assessment.residual_acceptability = Some(residual_acceptability);
        risk_assessment.updated_by = Some(calculated_by.clone());
        risk_assessment.updated_at = Some(clock::now_unix());
        proof {
            reveal_strlit("risk_assessment:");
            reveal_strlit("CALCULATE_RESIDUAL_RISK");
            reveal_strlit("SUCCESS");
        }
        let resource = String::from_str("risk_assessment:").concat(risk_assessment.id.as_str());
        match self.audit_logger.log_event(
            calculated_by.as_str(),
            "CALCULATE_RESIDUAL_RISK",
            resource.as_str(),
            "SUCCESS",
            None,
        ) {
            Ok(()) => Ok(()),
            Err(e) => Err(e),
        }
    }

    /// Approve a risk assessment. Unacceptable risks must carry control
    /// measures, all of them verified, before approval.
    pub fn approve_risk_assessment(
        &self,
        risk_assessment: &mut RiskAssessment,
        reviewed_by: String,
    ) -> (r: Result<(), QmsError>)
        ensures
            (old(risk_assessment).acceptability is Unacceptable
                && old(risk_assessment).control_measures@.len() == 0) ==> (r matches Err(
                QmsError::Validation { field, .. },
            ) && field@ == "control_measures"@ && final(risk_assessment).status == old(risk_assessment).status),
            r is Ok ==> (final(risk_assessment).status is Approved
                && (final(risk_assessment).reviewed_by matches Some(u)
                && u@ == reviewed_by@)),
            r is Ok && old(risk_assessment).acceptability is Unacceptable ==> (forall|j: int|
                0 <= j < old(risk_assessment).control_measures@.len()
                    ==> (#[trigger] old(risk_assessment).control_measures@[j]).verification_status is Verified),
    {
        if matches!(risk_assessment.acceptability, RiskAcceptability::Unacceptable) {
            if risk_assessment.control_measures.len() == 0 {
                return Err(QmsError::Validation {
                    field: String::from_str("control_measures"),
                    message: String::from_str(
                        "Unacceptable risks must have control measures before approval",
                    ),
                });
            }
            let mut j: usize = 0;
            while j < risk_assessment.control_measures.len()
                invariant
                    0 <= j <= risk_assessment.control_measures@.len(),
                    risk_assessment == old(risk_assessment),
                    forall|j2: int|
                        0 <= j2 < j ==> (#[trigger] risk_assessment.control_measures@[j2]).verification_status is Verified,
                decreases risk_assessment.control_measures@.len() - j,
            {
                if !matches!(
                    risk_assessment.control_measures[j].verification_status,
                    VerificationStatus::Verified
                ) {
                    return Err(QmsError::Validation {
                        field: String::from_str("verification_status"),
                        message: String::from_str(
                            "All control measures must be verified before approval",
                        ),
                    });
                }
                j += 1;
            }
        }
        risk_assessment.status = RiskAssessmentStatus::Approved;
        risk_assessment.reviewed_by = Some(reviewed_by.clone());
        risk_assessment.reviewed_at = Some(clock::now_unix());
        proof {
            reveal_strlit("risk_assessment:");
            reveal_strlit("APPROVE_RISK_ASSESSMENT");
            reveal_strlit("SUCCESS");
        }
        let resource = String::from_str("risk_assessment:").concat(risk_assessment.id.as_str());
        match self.audit_logger.log_event(
            reviewed_by.as_str(),
            "APPROVE_RISK_ASSESSMENT",
            resource.as_str(),
            "SUCCESS",
            None,
        ) {
            Ok(()) => Ok(()),
            Err(e) => Err(e),
        }
    }

    /// Verify a control measure: mark it verified on success and failed
    /// otherwise, recording who verified it and when.
    pub fn verify_control_measure(
        &self,
        control_measure: &mut ControlMeasure,
        verified_by: String,
        verification_successful: bool,
    ) -> (r: Result<(), QmsError>)
        ensures
            verification_successful ==> final(control_measure).verification_status is Verified,
            !verification_successful ==> final(control_measure).verification_status is Failed,
            final(control_measure).verified_by matches Some(u) && u@ == verified_by@,
            final(control_measure).id@ == old(control_measure).id@,
    {
        control_measure.verification_status = if verification_successful {
            VerificationStatus::Verified
        } else {
            VerificationStatus::Failed
        };
        control_measure.verified_by = Some(verified_by.clone());
        control_measure.verified_at = Some(clock::now_unix());
        let outcome = if verification_successful {
            "SUCCESS"
        } else {
            "FAILURE"
        };
        proof {
            reveal_strlit("control_measure:");
            reveal_strlit("VERIFY_CONTROL_MEASURE");
        }
        let resource = String::from_str("control_measure:").concat(control_measure.id.as_str());
        match self.audit_logger.log_event(
            verified_by.as_str(),
            "VERIFY_CONTROL_MEASURE",
            resource.as_str(),
            outcome,
            None,
        ) {
            Ok(()) => Ok(()),
            Err(e) => Err(e),
        }
    }

    /// Overall compliance status of a set of assessments: non-compliant
    /// when an unacceptable risk has no control measures, needing
    /// attention when any control measure is unverified, compliant
    /// otherwise.
    pub fn assess_compliance_status(&self, assessments: &[RiskAssessment]) -> (r: ComplianceStatus)
        ensures
            any_unacceptable_uncontrolled(assessments@) ==> r is NonCompliant,
            !any_unacceptable_uncontrolled(assessments@) && any_unverified_control(assessments@)
                ==> r is RequiresAttention,
            !any_unacceptable_uncontrolled(assessments@) && !any_unverified_control(assessments@)
                ==> r is Compliant,
    {
        let mut uncontrolled = false;
        let mut unverified = false;
        let mut i: usize = 0;
        while i < assessments.len()
            invariant
                0 <= i <= assessments@.len(),
                uncontrolled == (exists|i2: int|
                    0 <= i2 < i && (#[trigger] assessments@[i2]).acceptability is Unacceptable
                        && assessments@[i2].control_measures@.len() == 0),
                unverified == (exists|i2: int, j: int|
                    0 <= i2 < i && 0 <= j < (#[trigger] assessments@[i2]).control_measures@.len()
                        && !((#[trigger] assessments@[i2].control_measures@[j]).verification_status is Verified)),
            decreases assessments@.len() - i,
        {
            let a = &assessments[i];
            if matches!(a.acceptability, RiskAcceptability::Unacceptable)
                && a.control_measures.len() == 0 {
                uncontrolled = true;
            }
            let mut j: usize = 0;
            let mut found_unverified = false;
            while j < a.control_measures.len()
                invariant
                    0 <= j <= a.control_measures@.len(),
                    a == &assessments[i as int],
                    i < assessments@.len(),
                    found_unverified == (exists|j2: int|
                        0 <= j2 < j && !((#[trigger] a.control_measures@[j2]).verification_status is Verified)),
                decreases a.control_measures@.len() - j,
            {
                if !matches!(a.control_measures[j].verification_status, VerificationStatus::Verified) {
                    found_unverified = true;
                }
                j += 1;
            }
            if found_unverified {
                unverified = true;
            }
            i += 1;
        }
        if uncontrolled {
            ComplianceStatus::NonCompliant
        } else if unverified {
            ComplianceStatus::RequiresAttention
        } else {
            ComplianceStatus::Compliant
        }
    }
}

} // verus!
