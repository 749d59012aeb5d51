//! Training records: the record model and aggregated metrics.

use vstd::prelude::*;

verus! {

/// Training status lifecycle.
#[derive(Debug, Clone, Copy, PartialEq, Eq, Structural)]
pub enum TrainingStatus {
    Pending,
    InProgress,
    Completed,
    Overdue,
}

/// Employee training record.
#[derive(Debug)]
pub struct TrainingRecord {
    /// Unique identifier.
    pub id: String,
    /// The employee being trained.
    pub employee_id: String,
    /// What the training covers.
    pub training_item: String,
    /// Whether the training is mandatory.
    pub mandatory: bool,
    /// Who assigned it.
    pub assigned_by: String,
    /// When it is due, as days since the Unix epoch.
    pub due_date: i64,
    /// When it was completed, as days since the Unix epoch.
    pub completion_date: Option<i64>,
    /// Lifecycle status.
    pub status: TrainingStatus,
    /// Creation instant, seconds since the Unix epoch.
    pub created_at: i64,
    /// Last update instant, seconds since the Unix epoch.
    pub updated_at: i64,
}

/// Aggregated training metrics for dashboards and reporting.
#[derive(Debug)]
pub struct TrainingMetrics {
    /// Number of records.
    pub total_count: usize,
    /// Records completed.
    pub completed: usize,
    /// Records neither completed nor overdue.
    pub pending: usize,
    /// Records overdue.
    pub overdue: usize,
}

impl Default for TrainingMetrics {
    /// Metrics over no records at all.
    fn default() -> (r: Self)
        ensures
            r.total_count == 0,
            r.completed == 0,
            r.pending == 0,
            r.overdue == 0,
    {
        TrainingMetrics { total_count: 0, completed: 0, pending: 0, overdue: 0 }
    }
}

/// Number of records among the first `k` carrying a status.
pub open spec fn count_training_status(s: Seq<TrainingRecord>, st: TrainingStatus) -> int
    decreases s.len(),
{
    if s.len() == 0 {
        0
    } else {
        count_training_status(s.drop_last(), st) + (if s.last().status == st {
            1int
        } else {
            0int
        })
    }
}

impl TrainingMetrics {
    /// Compute high-level metrics from a slice of records: completed and
    /// overdue are counted by status, everything else counts as pending.
    pub fn calculate_metrics(records: &[TrainingRecord]) -> (r: TrainingMetrics)
        ensures
            r.total_count == records@.len(),
            r.completed as int == count_training_status(records@, TrainingStatus::Completed),
            r.overdue as int == count_training_status(records@, TrainingStatus::Overdue),
            r.pending as int == records@.len() - count_training_status(
                records@,
                TrainingStatus::Completed,
            ) - count_training_status(records@, TrainingStatus::Overdue),
    {
        let mut completed: usize = 0;
        let mut overdue: usize = 0;
        let mut pending: usize = 0;
        let mut i: usize = 0;
        proof {
            assert(records@.take(0) =~= Seq::<TrainingRecord>::empty());
        }
        while i < records.len()
            invariant
                0 <= i <= records@.len(),
                completed as int == count_training_status(
                    records@.take(i as int),
                    TrainingStatus::Completed,
                ),
                overdue as int == count_training_status(
                    records@.take(i as int),
                    TrainingStatus::Overdue,
                ),
                completed + overdue + pending == i,
                pending as int == i - count_training_status(
                    records@.take(i as int),
                    TrainingStatus::Completed,
                ) - count_training_status(records@.take(i as int), TrainingStatus::Overdue),
            decreases records@.len() - i,
        {
            match records[i].status {
                TrainingStatus::Completed => {
                    completed += 1;
                },
                TrainingStatus::Overdue => {
                    overdue += 1;
                },
                _ => {
                    pending += 1;
                },
            }
            proof {
                let t = records@.take(i + 1 as int);
                assert(t.drop_last() =~= records@.take(i as int));
                assert(t.last() == records@[i as int]);
            }
            i += 1;
        }
        proof {
            assert(records@.take(records@.len() as int) =~= records@);
        }
        TrainingMetrics { total_count: records.len(), completed, pending, overdue }
    }
}

} // verus!
