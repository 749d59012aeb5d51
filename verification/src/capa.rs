//! Corrective and preventive action (CAPA) workflow: status lifecycle,
//! actions, effectiveness verification and metrics, every state change
//! feeding the audit trail.

use vstd::prelude::*;
use vstd::string::StringExecFns;
use crate::audit::AuditManager;
use crate::clock;
use crate::error::QmsError;
use crate::ident;

verus! {

/// CAPA lifecycle status.
#[derive(Debug, Clone, Copy, PartialEq, Eq, Structural)]
pub enum CapaStatus {
    /// Initial identification and documentation.
    Identified,
    /// Investigation in progress.
    InvestigationInProgress,
    /// Root cause analysis phase.
    RootCauseAnalysis,
    /// Corrective actions being implemented.
    CorrectiveActionInProgress,
    /// Preventive actions being implemented.
    PreventiveActionInProgress,
    /// Effectiveness verification phase.
    EffectivenessVerification,
    /// Completed successfully.
    Closed,
    /// Cancelled or rejected.
    Cancelled,
}

/// Which status transitions the workflow allows: the forward path of the
/// lifecycle, and cancellation from any state.
pub open spec fn transition_allowed(from: CapaStatus, to: CapaStatus) -> bool {
    ||| (from is Identified && to is InvestigationInProgress)
    ||| (from is InvestigationInProgress && to is RootCauseAnalysis)
    ||| (from is RootCauseAnalysis && to is CorrectiveActionInProgress)
    ||| (from is RootCauseAnalysis && to is PreventiveActionInProgress)
    ||| (from is CorrectiveActionInProgress && to is EffectivenessVerification)
    ||| (from is PreventiveActionInProgress && to is EffectivenessVerification)
    ||| (from is EffectivenessVerification && to is Closed)
    ||| to is Cancelled
}

impl CapaStatus {
    /// Human-readable status description.
    pub fn as_str(&self) -> (r: &'static str)
        ensures
            *self is Identified ==> r@ == "Identified"@,
            *self is InvestigationInProgress ==> r@ == "Investigation In Progress"@,
            *self is RootCauseAnalysis ==> r@ == "Root Cause Analysis"@,
            *self is CorrectiveActionInProgress ==> r@ == "Corrective Action In Progress"@,
            *self is PreventiveActionInProgress ==> r@ == "Preventive Action In Progress"@,
            *self is EffectivenessVerification ==> r@ == "Effectiveness Verification"@,
            *self is Closed ==> r@ == "Closed"@,
            *self is Cancelled ==> r@ == "Cancelled"@,
    {
        match self {
            CapaStatus::Identified => "Identified",
            CapaStatus::InvestigationInProgress => "Investigation In Progress",
            CapaStatus::RootCauseAnalysis => "Root Cause Analysis",
            CapaStatus::CorrectiveActionInProgress => "Corrective Action In Progress",
            CapaStatus::PreventiveActionInProgress => "Preventive Action In Progress",
            CapaStatus::EffectivenessVerification => "Effectiveness Verification",
            CapaStatus::Closed => "Closed",
            CapaStatus::Cancelled => "Cancelled",
        }
    }

    /// Check whether the workflow allows a transition to the new status.
    pub fn can_transition_to(&self, new_status: &CapaStatus) -> (r: bool)
        ensures
            r == transition_allowed(*self, *new_status),
    {
        match (self, new_status) {
            (CapaStatus::Identified, CapaStatus::InvestigationInProgress) => true,
            (CapaStatus::InvestigationInProgress, CapaStatus::RootCauseAnalysis) => true,
            (CapaStatus::RootCauseAnalysis, CapaStatus::CorrectiveActionInProgress) => true,
            (CapaStatus::RootCauseAnalysis, CapaStatus::PreventiveActionInProgress) => true,
            (CapaStatus::CorrectiveActionInProgress, CapaStatus::EffectivenessVerification) => true,
            (CapaStatus::PreventiveActionInProgress, CapaStatus::EffectivenessVerification) => true,
            (CapaStatus::EffectivenessVerification, CapaStatus::Closed) => true,
            (_, CapaStatus::Cancelled) => true,
            _ => false,
        }
    }
}

/// CAPA priority levels for resource allocation.
#[derive(Debug, Clone, Copy, PartialEq, Eq, Structural)]
pub enum CapaPriority {
    /// Immediate safety concerns.
    Critical,
    /// Significant quality impact.
    High,
    /// Moderate impact.
    Medium,
    /// Minor issues.
    Low,
}

impl CapaPriority {
    /// Human-readable priority name.
    pub fn as_str(&self) -> (r: &'static str)
        ensures
            *self is Critical ==> r@ == "Critical"@,
            *self is High ==> r@ == "High"@,
            *self is Medium ==> r@ == "Medium"@,
            *self is Low ==> r@ == "Low"@,
    {
        match self {
            CapaPriority::Critical => "Critical",
            CapaPriority::High => "High",
            CapaPriority::Medium => "Medium",
            CapaPriority::Low => "Low",
        }
    }
}

/// CAPA type classification.
#[derive(Debug, Clone, Copy, PartialEq, Eq, Structural)]
pub enum CapaType {
    /// Address existing problems.
    Corrective,
    /// Prevent potential problems.
    Preventive,
    /// Both corrective and preventive.
    Combined,
}

impl CapaType {
    /// Human-readable type name.
    pub fn as_str(&self) -> (r: &'static str)
        ensures
            *self is Corrective ==> r@ == "Corrective"@,
            *self is Preventive ==> r@ == "Preventive"@,
            *self is Combined ==> r@ == "Combined"@,
    {
        match self {
            CapaType::Corrective => "Corrective",
            CapaType::Preventive => "Preventive",
            CapaType::Combined => "Combined",
        }
    }
}

/// Action completion status.
#[derive(Debug, Clone, Copy, PartialEq, Eq, Structural)]
pub enum ActionStatus {
    Planned,
    InProgress,
    Completed,
    Verified,
    Overdue,
}

/// Individual action within a CAPA.
#[derive(Debug)]
pub struct CapaAction {
    /// Unique identifier of the action.
    pub id: String,
    /// What is to be done.
    pub description: String,
    /// Who carries it out.
    pub assigned_to: String,
    /// When it is due, seconds since the Unix epoch.
    pub due_date: i64,
    /// When it was completed, if it was.
    pub completed_date: Option<i64>,
    /// How completion is verified.
    pub verification_method: String,
    /// Completion status.
    pub status: ActionStatus,
    /// Evidence references.
    pub evidence: Vec<String>,
}

/// Effectiveness verification record.
#[derive(Debug)]
pub struct EffectivenessVerification {
    /// When verification took place, seconds since the Unix epoch.
    pub verification_date: i64,
    /// Who verified.
    pub verifier_id: String,
    /// The verification method.
    pub method: String,
    /// The findings.
    pub results: String,
    /// Whether the CAPA proved effective.
    pub is_effective: bool,
    /// Whether follow-up work is required.
    pub follow_up_required: bool,
    /// Follow-up actions, if any.
    pub follow_up_actions: Vec<String>,
}

/// Core CAPA record.
#[derive(Debug)]
pub struct CapaRecord {
    /// Unique identifier.
    pub id: String,
    /// Short title.
    pub title: String,
    /// Full description.
    pub description: String,
    /// Classification.
    pub capa_type: CapaType,
    /// Priority.
    pub priority: CapaPriority,
    /// Lifecycle status.
    pub status: CapaStatus,
    /// Who raised it.
    pub initiator_id: String,
    /// Who owns it.
    pub assigned_to: String,
    /// Creation instant, seconds since the Unix epoch.
    pub created_at: i64,
    /// Last update instant, seconds since the Unix epoch.
    pub updated_at: i64,
    /// Due date, if set.
    pub due_date: Option<i64>,
    /// Closure instant, once closed.
    pub closed_date: Option<i64>,
    /// Source document reference, if any.
    pub source_document: Option<String>,
    /// Related risk assessment, if any.
    pub related_risk_id: Option<String>,
    /// Investigation summary, once written.
    pub investigation_summary: Option<String>,
    /// Root cause, once determined.
    pub root_cause: Option<String>,
    /// Corrective actions.
    pub corrective_actions: Vec<CapaAction>,
    /// Preventive actions.
    pub preventive_actions: Vec<CapaAction>,
    /// Effectiveness verification, once performed.
    pub effectiveness_verification: Option<EffectivenessVerification>,
    /// Additional metadata, as key-value pairs.
    pub metadata: Vec<(String, String)>,
}

/// CAPA metrics for reporting and dashboards.
#[derive(Debug)]
pub struct CapaMetrics {
    /// Number of records.
    pub total_count: usize,
    /// Count of records per status, in lifecycle order.
    pub status_counts: Vec<(String, usize)>,
    /// Count of records per priority, highest first.
    pub priority_counts: Vec<(String, usize)>,
    /// Records past their due date and not closed.
    pub overdue_count: usize,
    /// Records closed.
    pub closed_count: usize,
}

/// Number of records carrying a status.
pub open spec fn count_status(s: Seq<CapaRecord>, st: CapaStatus) -> int
    decreases s.len(),
{
    if s.len() == 0 {
        0
    } else {
        count_status(s.drop_last(), st) + (if s.last().status == st {
            1int
        } else {
            0int
        })
    }
}

/// Number of records carrying a priority.
pub open spec fn count_priority(s: Seq<CapaRecord>, p: CapaPriority) -> int
    decreases s.len(),
{
    if s.len() == 0 {
        0
    } else {
        count_priority(s.drop_last(), p) + (if s.last().priority == p {
            1int
        } else {
            0int
        })
    }
}

/// Number of records past their due date and not closed, at an instant.
pub open spec fn count_overdue(s: Seq<CapaRecord>, now: int) -> int
    decreases s.len(),
{
    if s.len() == 0 {
        0
    } else {
        count_overdue(s.drop_last(), now) + (if (s.last().due_date matches Some(d) && d < now
            && !(s.last().status is Closed)) {
            1int
        } else {
            0int
        })
    }
}

/// Count the records carrying a status.
fn count_status_exec(capas: &[CapaRecord], st: CapaStatus) -> (r: usize)
    ensures
        r as int == count_status(capas@, st),
        r <= capas@.len(),
{
    let mut r: usize = 0;
    let mut i: usize = 0;
    proof {
        assert(capas@.take(0) =~= Seq::<CapaRecord>::empty());
    }
    while i < capas.len()
        invariant
            0 <= i <= capas@.len(),
            r as int == count_status(capas@.take(i as int), st),
            r <= i,
        decreases capas@.len() - i,
    {
        if capas[i].status == st {
            r += 1;
        }
        proof {
            let t = capas@.take(i + 1 as int);
            assert(t.drop_last() =~= capas@.take(i as int));
            assert(t.last() == capas@[i as int]);
        }
        i += 1;
    }
    proof {
        assert(capas@.take(capas@.len() as int) =~= capas@);
    }
    r
}

/// Count the records carrying a priority.
fn count_priority_exec(capas: &[CapaRecord], p: CapaPriority) -> (r: usize)
    ensures
        r as int == count_priority(capas@, p),
        r <= capas@.len(),
{
    let mut r: usize = 0;
    let mut i: usize = 0;
    proof {
        assert(capas@.take(0) =~= Seq::<CapaRecord>::empty());
    }
    while i < capas.len()
        invariant
            0 <= i <= capas@.len(),
            r as int == count_priority(capas@.take(i as int), p),
            r <= i,
        decreases capas@.len() - i,
    {
        if capas[i].priority == p {
            r += 1;
        }
        proof {
            let t = capas@.take(i + 1 as int);
            assert(t.drop_last() =~= capas@.take(i as int));
            assert(t.last() == capas@[i as int]);
        }
        i += 1;
    }
    proof {
        assert(capas@.take(capas@.len() as int) =~= capas@);
    }
    r
}

/// Whether some action in the sequence carries the identifier.
pub open spec fn has_action(s: Seq<CapaAction>, id: Seq<char>) -> bool {
    exists|i: int| 0 <= i < s.len() && (#[trigger] s[i]).id@ == id
}

/// The texts of a string sequence.
pub open spec fn texts_of(s: Seq<String>) -> Seq<Seq<char>> {
    s.map_values(|t: String| t@)
}

/// How a completed action relates to the one it replaces: same identity
/// and assignment, completed status, a completion date, and the given
/// evidence.
pub open spec fn action_completed(before: CapaAction, after: CapaAction, evidence: Seq<String>) -> bool {
    &&& after.id@ == before.id@
    &&& after.description@ == before.description@
    &&& after.assigned_to@ == before.assigned_to@
    &&& after.due_date == before.due_date
    &&& after.verification_method@ == before.verification_method@
    &&& after.status is Completed
    &&& after.completed_date is Some
    &&& texts_of(after.evidence@) == texts_of(evidence)
}

/// The first action carrying the identifier, if any.
fn find_action_index(actions: &Vec<CapaAction>, id: &str) -> (r: Option<usize>)
    ensures
        r matches Some(i) ==> (i < actions@.len() && actions@[i as int].id@ == id@),
        r is None ==> !has_action(actions@, id@),
{
    let target = id.to_owned();
    let mut i: usize = 0;
    while i < actions.len()
        invariant
            0 <= i <= actions@.len(),
            target@ == id@,
            forall|j: int| 0 <= j < i ==> (#[trigger] actions@[j]).id@ != id@,
        decreases actions@.len() - i,
    {
        if actions[i].id == target {
            return Some(i);
        }
        i += 1;
    }
    None
}

/// A copy of an action marked completed with the given evidence.
fn completed_copy(action: &CapaAction, evidence: Vec<String>, now: i64) -> (r: CapaAction)
    ensures
        action_completed(*action, r, evidence@),
{
    let mut copied_evidence: Vec<String> = Vec::new();
    let mut k: usize = 0;
    proof {
        assert(texts_of(copied_evidence@) =~= texts_of(evidence@.take(0)));
    }
    while k < evidence.len()
        invariant
            0 <= k <= evidence@.len(),
            texts_of(copied_evidence@) == texts_of(evidence@.take(k as int)),
        decreases evidence@.len() - k,
    {
        let ghost prev = copied_evidence@;
        copied_evidence.push(evidence[k].clone());
        proof {
            let t = evidence@.take(k + 1 as int);
            assert(t.drop_last() =~= evidence@.take(k as int));
            assert(texts_of(t).drop_last() =~= texts_of(t.drop_last()));
            assert(texts_of(copied_evidence@) =~= texts_of(prev).push(evidence@[k as int]@));
            assert(texts_of(copied_evidence@) =~= texts_of(t));
        }
        k += 1;
    }
    proof {
        assert(evidence@.take(evidence@.len() as int) =~= evidence@);
    }
    let r = CapaAction {
        id: action.id.clone(),
        description: action.description.clone(),
        assigned_to: action.assigned_to.clone(),
        due_date: action.due_date,
        completed_date: Some(now),
        verification_method: action.verification_method.clone(),
        status: ActionStatus::Completed,
        evidence: copied_evidence,
    };
    r
}

/// CAPA workflow management service with audit integration.
pub struct CapaService {
    audit_manager: AuditManager,
}

impl CapaService {
    /// The audit rows recorded so far.
    pub closed spec fn rows(self) -> Seq<crate::database::AuditRow> {
        self.audit_manager.rows()
    }

    /// Well-formedness of the underlying audit store.
    pub closed spec fn wf(self) -> bool {
        self.audit_manager.wf()
    }

    /// Create a new CAPA service around an audit manager.
    pub fn new(audit_manager: AuditManager) -> (r: CapaService)
        ensures
            r.rows() == audit_manager.rows(),
            audit_manager.wf() ==> r.wf(),
    {
        CapaService { audit_manager }
    }

    /// Create a new CAPA record in the identified state and audit its
    /// creation.
    pub fn create_capa(
        &mut self,
        title: String,
        description: String,
        capa_type: CapaType,
        priority: CapaPriority,
        initiator_id: String,
        assigned_to: String,
        due_date: Option<i64>,
    ) -> (r: Result<CapaRecord, QmsError>)
        requires
            old(self).wf(),
        ensures
            final(self).wf(),
            initiator_id@.len() == 0 ==> (r matches Err(QmsError::Validation { field, .. })
                && field@ == "actor_id"@),
            r matches Ok(c) ==> ({
                &&& c.id@.len() == 36
                &&& c.title@ == title@
                &&& c.description@ == description@
                &&& c.capa_type == capa_type
                &&& c.priority == priority
                &&& c.status is Identified
                &&& c.initiator_id@ == initiator_id@
                &&& c.assigned_to@ == assigned_to@
                &&& c.due_date == due_date
                &&& c.closed_date is None
                &&& c.corrective_actions@.len() == 0
                &&& c.preventive_actions@.len() == 0
                &&& c.effectiveness_verification is None
                &&& final(self).rows().len() == old(self).rows().len() + 1
            }),
    {
        let capa_id = ident::fresh_id();
        let now = clock::now_unix();
        let resource = String::from_str("capa:").concat(capa_id.as_str());
        proof {
            reveal_strlit("capa:");
            reveal_strlit("capa_created");
        }
        match self.audit_manager.log_action(
            initiator_id.as_str(),
            "capa_created",
            resource.as_str(),
            "Success",
            Some(title.clone()),
        ) {
            Ok(()) => {},
            Err(e) => {
                return Err(e);
            },
        }
        Ok(CapaRecord {
            id: capa_id,
            title,
            description,
            capa_type,
            priority,
            status: CapaStatus::Identified,
            initiator_id,
            assigned_to,
            created_at: now,
            updated_at: now,
            due_date,
            closed_date: None,
            source_document: None,
            related_risk_id: None,
            investigation_summary: None,
            root_cause: None,
            corrective_actions: Vec::new(),
            preventive_actions: Vec::new(),
            effectiveness_verification: None,
            metadata: Vec::new(),
        })
    }

    /// Update a CAPA's status, enforcing the workflow's transitions, and
    /// audit the change. An invalid transition leaves the record
    /// untouched.
    pub fn update_status(
        &mut self,
        capa: &mut CapaRecord,
        new_status: CapaStatus,
        user_id: &str,
        comment: Option<String>,
    ) -> (r: Result<(), QmsError>)
        requires
            old(self).wf(),
        ensures
            final(self).wf(),
            !transition_allowed(old(capa).status, new_status) ==> (r matches Err(
                QmsError::ValidationError { field, .. },
            ) && field@ == "status"@ && final(capa).status == old(capa).status && final(capa).id@
                == old(capa).id@),
            r is Ok ==> (transition_allowed(old(capa).status, new_status) && final(capa).status
                == new_status && final(capa).id@ == old(capa).id@ && final(capa).title@ == old(capa).title@ && (new_status is Closed ==> final(capa).closed_date is Some) && (!(
            new_status is Closed) ==> final(capa).closed_date == old(capa).closed_date)),
    {
        if !capa.status.can_transition_to(&new_status) {
            return Err(QmsError::ValidationError {
                field: String::from_str("status"),
                message: String::from_str("Invalid status transition"),
            });
        }
        let resource = String::from_str("capa:").concat(capa.id.as_str());
        proof {
            reveal_strlit("capa:");
            reveal_strlit("capa_status_updated");
        }
        match self.audit_manager.log_action(
            user_id,
            "capa_status_updated",
            resource.as_str(),
            "Success",
            comment,
        ) {
            Ok(()) => {},
            Err(e) => {
                return Err(e);
            },
        }
        capa.status = new_status;
        capa.updated_at = clock::now_unix();
        if matches!(new_status, CapaStatus::Closed) {
            capa.closed_date = Some(clock::now_unix());
        }
        Ok(())
    }

    /// Add a corrective action in the planned state and audit it.
    pub fn add_corrective_action(
        &mut self,
        capa: &mut CapaRecord,
        description: String,
        assigned_to: String,
        due_date: i64,
        verification_method: String,
        user_id: &str,
    ) -> (r: Result<String, QmsError>)
        requires
            old(self).wf(),
        ensures
            final(self).wf(),
            r is Err ==> final(capa).corrective_actions@.len() == old(capa).corrective_actions@.len(),
            r matches Ok(id) ==> ({
                &&& id@.len() == 36
                &&& final(capa).corrective_actions@.len() == old(capa).corrective_actions@.len()
                    + 1
                &&& final(capa).corrective_actions@.last().id@ == id@
                &&& final(capa).corrective_actions@.last().description@ == description@
                &&& final(capa).corrective_actions@.last().assigned_to@ == assigned_to@
                &&& final(capa).corrective_actions@.last().due_date == due_date
                &&& final(capa).corrective_actions@.last().completed_date is None
                &&& final(capa).corrective_actions@.last().status is Planned
                &&& final(capa).preventive_actions@ == old(capa).preventive_actions@
            }),
    {
        let action_id = ident::fresh_id();
        let resource = String::from_str("capa:").concat(capa.id.as_str());
        proof {
            reveal_strlit("capa:");
            reveal_strlit("corrective_action_added");
        }
        match self.audit_manager.log_action(
            user_id,
            "corrective_action_added",
            resource.as_str(),
            "Success",
            Some(description.clone()),
        ) {
            Ok(()) => {},
            Err(e) => {
                return Err(e);
            },
        }
        let action = CapaAction {
            id: action_id.clone(),
            description,
            assigned_to,
            due_date,
            completed_date: None,
            verification_method,
            status: ActionStatus::Planned,
            evidence: Vec::new(),
        };
        capa.corrective_actions.push(action);
        capa.updated_at = clock::now_unix();
        Ok(action_id)
    }

    /// Add a preventive action in the planned state and audit it.
    pub fn add_preventive_action(
        &mut self,
        capa: &mut CapaRecord,
        description: String,
        assigned_to: String,
        due_date: i64,
        verification_method: String,
        user_id: &str,
    ) -> (r: Result<String, QmsError>)
        requires
            old(self).wf(),
        ensures
            final(self).wf(),
            r is Err ==> final(capa).preventive_actions@.len() == old(capa).preventive_actions@.len(),
            r matches Ok(id) ==> ({
                &&& id@.len() == 36
                &&& final(capa).preventive_actions@.len() == old(capa).preventive_actions@.len()
                    + 1
                &&& final(capa).preventive_actions@.last().id@ == id@
                &&& final(capa).preventive_actions@.last().description@ == description@
                &&& final(capa).preventive_actions@.last().assigned_to@ == assigned_to@
                &&& final(capa).preventive_actions@.last().due_date == due_date
                &&& final(capa).preventive_actions@.last().completed_date is None
                &&& final(capa).preventive_actions@.last().status is Planned
                &&& final(capa).corrective_actions@ == old(capa).corrective_actions@
            }),
    {
        let action_id = ident::fresh_id();
        let resource = String::from_str("capa:").concat(capa.id.as_str());
        proof {
            reveal_strlit("capa:");
            reveal_strlit("preventive_action_added");
        }
        match self.audit_manager.log_action(
            user_id,
            "preventive_action_added",
            resource.as_str(),
            "Success",
            Some(description.clone()),
        ) {
            Ok(()) => {},
            Err(e) => {
                return Err(e);
            },
        }
        let action = CapaAction {
            id: action_id.clone(),
            description,
            assigned_to,
            due_date,
            completed_date: None,
            verification_method,
            status: ActionStatus::Planned,
            evidence: Vec::new(),
        };
        capa.preventive_actions.push(action);
        capa.updated_at = clock::now_unix();
        Ok(action_id)
    }

    /// Mark an action within a CAPA as completed, storing the
    /// completion evidence, and audit it. Corrective actions are
    /// searched first, then preventive ones; an unknown action
    /// identifier is an error.
    pub fn complete_action(
        &mut self,
        capa: &mut CapaRecord,
        action_id: &str,
        completion_evidence: Vec<String>,
        user_id: &str,
    ) -> (r: Result<(), QmsError>)
        requires
            old(self).wf(),
        ensures
            final(self).wf(),
            !has_action(old(capa).corrective_actions@, action_id@) && !has_action(
                old(capa).preventive_actions@,
                action_id@,
            ) ==> (r matches Err(QmsError::NotFound { resource, .. }) && resource@ == "action"@
                && final(capa).corrective_actions@ == old(capa).corrective_actions@ && final(capa).preventive_actions@ == old(capa).preventive_actions@),
            r is Ok && has_action(old(capa).corrective_actions@, action_id@) ==> (exists|i: int|
                0 <= i < old(capa).corrective_actions@.len() && (#[trigger] old(capa).corrective_actions@[i]).id@ == action_id@ && action_completed(
                    old(capa).corrective_actions@[i],
                    final(capa).corrective_actions@[i],
                    completion_evidence@,
                ) && final(capa).corrective_actions@.len() == old(capa).corrective_actions@.len()
                    && (forall|j: int|
                    0 <= j < old(capa).corrective_actions@.len() && j != i
                        ==> final(capa).corrective_actions@[j] == old(capa).corrective_actions@[j]) && final(capa).preventive_actions@ == old(capa).preventive_actions@),
            r is Ok && !has_action(old(capa).corrective_actions@, action_id@) && has_action(
                old(capa).preventive_actions@,
                action_id@,
            ) ==> (exists|i: int|
                0 <= i < old(capa).preventive_actions@.len() && (#[trigger] old(capa).preventive_actions@[i]).id@ == action_id@ && action_completed(
                    old(capa).preventive_actions@[i],
                    final(capa).preventive_actions@[i],
                    completion_evidence@,
                ) && final(capa).preventive_actions@.len() == old(capa).preventive_actions@.len()
                    && (forall|j: int|
                    0 <= j < old(capa).preventive_actions@.len() && j != i
                        ==> final(capa).preventive_actions@[j] == old(capa).preventive_actions@[j]) && final(capa).corrective_actions@ == old(capa).corrective_actions@),
    {
        let corrective_pos = find_action_index(&capa.corrective_actions, action_id);
        let preventive_pos = match corrective_pos {
            Some(_) => None,
            None => find_action_index(&capa.preventive_actions, action_id),
        };
        if corrective_pos.is_none() && preventive_pos.is_none() {
            return Err(QmsError::NotFound {
                resource: String::from_str("action"),
                id: action_id.to_owned(),
            });
        }
        let resource = String::from_str("capa:").concat(capa.id.as_str());
        proof {
            reveal_strlit("capa:");
            reveal_strlit("action_completed");
        }
        match self.audit_manager.log_action(
            user_id,
            "action_completed",
            resource.as_str(),
            "Success",
            None,
        ) {
            Ok(()) => {},
            Err(e) => {
                return Err(e);
            },
        }
        let now = clock::now_unix();
        match corrective_pos {
            Some(i) => {
                let updated = completed_copy(&capa.corrective_actions[i], completion_evidence, now);
                capa.corrective_actions.set(i, updated);
            },
            None => {
                let i = preventive_pos.unwrap();
                let updated = completed_copy(&capa.preventive_actions[i], completion_evidence, now);
                capa.preventive_actions.set(i, updated);
            },
        }
        capa.updated_at = now;
        Ok(())
    }

    /// Record an effectiveness verification on a CAPA and audit it.
    /// Follow-up is required exactly when follow-up actions are given.
    pub fn verify_effectiveness(
        &mut self,
        capa: &mut CapaRecord,
        verification_method: String,
        results: String,
        is_effective: bool,
        verifier_id: String,
        follow_up_actions: Vec<String>,
    ) -> (r: Result<(), QmsError>)
        requires
            old(self).wf(),
        ensures
            final(self).wf(),
            r is Err ==> final(capa).effectiveness_verification == old(capa).effectiveness_verification,
            r is Ok ==> (final(capa).effectiveness_verification matches Some(v) && v.verifier_id@
                == verifier_id@ && v.method@ == verification_method@ && v.results@ == results@
                && v.is_effective == is_effective && v.follow_up_required == (
            follow_up_actions@.len() > 0)),
    {
        let resource = String::from_str("capa:").concat(capa.id.as_str());
        proof {
            reveal_strlit("capa:");
            reveal_strlit("effectiveness_verified");
        }
        match self.audit_manager.log_action(
            verifier_id.as_str(),
            "effectiveness_verified",
            resource.as_str(),
            "Success",
            Some(results.clone()),
        ) {
            Ok(()) => {},
            Err(e) => {
                return Err(e);
            },
        }
        let follow_up_required = follow_up_actions.len() > 0;
        let verification = EffectivenessVerification {
            verification_date: clock::now_unix(),
            verifier_id,
            method: verification_method,
            results,
            is_effective,
            follow_up_required,
            follow_up_actions,
        };
        capa.effectiveness_verification = Some(verification);
        capa.updated_at = clock::now_unix();
        Ok(())
    }

    /// CAPA metrics over a set of records: totals, per-status and
    /// per-priority counts, overdue and closed counts.
    pub fn get_capa_metrics(&self, capas: &[CapaRecord]) -> (r: CapaMetrics)
        ensures
            r.total_count == capas@.len(),
            r.closed_count as int == count_status(capas@, CapaStatus::Closed),
            exists|now: int| r.overdue_count as int == #[trigger] count_overdue(capas@, now),
            r.status_counts@.len() == 8,
            r.priority_counts@.len() == 4,
            r.status_counts@[6].1 as int == count_status(capas@, CapaStatus::Closed),
            r.priority_counts@[0].1 as int == count_priority(capas@, CapaPriority::Critical),
            r.priority_counts@[1].1 as int == count_priority(capas@, CapaPriority::High),
            r.priority_counts@[2].1 as int == count_priority(capas@, CapaPriority::Medium),
            r.priority_counts@[3].1 as int == count_priority(capas@, CapaPriority::Low),
    {
        let now = clock::now_unix();
        let mut overdue: usize = 0;
        let mut i: usize = 0;
        proof {
            assert(capas@.take(0) =~= Seq::<CapaRecord>::empty());
        }
        while i < capas.len()
            invariant
                0 <= i <= capas@.len(),
                overdue as int == count_overdue(capas@.take(i as int), now as int),
                overdue <= i,
            decreases capas@.len() - i,
        {
            let is_overdue = match capas[i].due_date {
                Some(d) => d < now && !matches!(capas[i].status, CapaStatus::Closed),
                None => false,
            };
            if is_overdue {
                overdue += 1;
            }
            proof {
                let t = capas@.take(i + 1 as int);
                assert(t.drop_last() =~= capas@.take(i as int));
                assert(t.last() == capas@[i as int]);
            }
            i += 1;
        }
        proof {
            assert(capas@.take(capas@.len() as int) =~= capas@);
        }
        let closed = count_status_exec(capas, CapaStatus::Closed);
        let mut status_counts: Vec<(String, usize)> = Vec::new();
        status_counts.push(
            (CapaStatus::Identified.as_str().to_owned(), count_status_exec(capas, CapaStatus::Identified)),
        );
        status_counts.push(
            (
                CapaStatus::InvestigationInProgress.as_str().to_owned(),
                count_status_exec(capas, CapaStatus::InvestigationInProgress),
            ),
        );
        status_counts.push(
            (
                CapaStatus::RootCauseAnalysis.as_str().to_owned(),
                count_status_exec(capas, CapaStatus::RootCauseAnalysis),
            ),
        );
        status_counts.push(
            (
                CapaStatus::CorrectiveActionInProgress.as_str().to_owned(),
                count_status_exec(capas, CapaStatus::CorrectiveActionInProgress),
            ),
        );
        status_counts.push(
            (
                CapaStatus::PreventiveActionInProgress.as_str().to_owned(),
                count_status_exec(capas, CapaStatus::PreventiveActionInProgress),
            ),
        );
        status_counts.push(
            (
                CapaStatus::EffectivenessVerification.as_str().to_owned(),
                count_status_exec(capas, CapaStatus::EffectivenessVerification),
            ),
        );
        status_counts.push((CapaStatus::Closed.as_str().to_owned(), closed));
        status_counts.push(
            (CapaStatus::Cancelled.as_str().to_owned(), count_status_exec(capas, CapaStatus::Cancelled)),
        );
        let mut priority_counts: Vec<(String, usize)> = Vec::new();
        priority_counts.push(
            (CapaPriority::Critical.as_str().to_owned(), count_priority_exec(capas, CapaPriority::Critical)),
        );
        priority_counts.push(
            (CapaPriority::High.as_str().to_owned(), count_priority_exec(capas, CapaPriority::High)),
        );
        priority_counts.push(
            (CapaPriority::Medium.as_str().to_owned(), count_priority_exec(capas, CapaPriority::Medium)),
        );
        priority_counts.push(
            (CapaPriority::Low.as_str().to_owned(), count_priority_exec(capas, CapaPriority::Low)),
        );
        CapaMetrics {
            total_count: capas.len(),
            status_counts,
            priority_counts,
            overdue_count: overdue,
            closed_count: closed,
        }
    }
}

} // verus!
