//! Post-market surveillance: the adverse event model.

use vstd::prelude::*;
use crate::clock;
use crate::ident;

verus! {

/// Adverse event severity levels.
#[derive(Debug, Clone, Copy, PartialEq, Eq, Structural)]
pub enum Severity {
    Critical,
    Major,
    Minor,
}

/// One adverse event record.
#[derive(Debug)]
pub struct AdverseEvent {
    /// Unique identifier.
    pub id: String,
    /// When the event was reported, seconds since the Unix epoch.
    pub reported_on: i64,
    /// Who reported it.
    pub reporter: String,
    /// What happened.
    pub description: String,
    /// How severe it was.
    pub severity: Severity,
}

impl AdverseEvent {
    /// Create a new adverse event stamped with the current time and a
    /// fresh identifier.
    pub fn new(reporter: String, description: String, severity: Severity) -> (r: AdverseEvent)
        ensures
            r.id@.len() == 36,
            r.reporter@ == reporter@,
            r.description@ == description@,
            r.severity == severity,
    {
        AdverseEvent {
            id: ident::fresh_id(),
            reported_on: clock::now_unix(),
            reporter,
            description,
            severity,
        }
    }
}

} // verus!
