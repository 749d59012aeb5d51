//! States shared with the terminal dashboard: tab navigation.

use vstd::prelude::*;

verus! {

/// Tab states for dashboard navigation, in display order.
#[derive(Debug, Clone, Copy, PartialEq, Eq, Structural)]
pub enum TabState {
    Dashboard,
    Documents,
    AuditTrail,
    Capa,
    Suppliers,
    Reports,
}

impl TabState {
    /// The tab after this one, wrapping at the end.
    pub fn next(&self) -> (r: TabState)
        ensures
            *self is Dashboard ==> r is Documents,
            *self is Documents ==> r is AuditTrail,
            *self is AuditTrail ==> r is Capa,
            *self is Capa ==> r is Suppliers,
            *self is Suppliers ==> r is Reports,
            *self is Reports ==> r is Dashboard,
    {
        match self {
            TabState::Dashboard => TabState::Documents,
            TabState::Documents => TabState::AuditTrail,
            TabState::AuditTrail => TabState::Capa,
            TabState::Capa => TabState::Suppliers,
            TabState::Suppliers => TabState::Reports,
            TabState::Reports => TabState::Dashboard,
        }
    }

    /// The tab before this one, wrapping at the start.
    pub fn previous(&self) -> (r: TabState)
        ensures
            *self is Dashboard ==> r is Reports,
            *self is Documents ==> r is Dashboard,
            *self is AuditTrail ==> r is Documents,
            *self is Capa ==> r is AuditTrail,
            *self is Suppliers ==> r is Capa,
            *self is Reports ==> r is Suppliers,
    {
        match self {
            TabState::Dashboard => TabState::Reports,
            TabState::Documents => TabState::Dashboard,
            TabState::AuditTrail => TabState::Documents,
            TabState::Capa => TabState::AuditTrail,
            TabState::Suppliers => TabState::Capa,
            TabState::Reports => TabState::Suppliers,
        }
    }
}

} // verus!
