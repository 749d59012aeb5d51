//! Source of the current time for audit timestamps.

use vstd::prelude::*;

verus! {

/// Current civil time as seconds since the Unix epoch.
///
/// Relies on chrono's `Utc::now` and `DateTime::timestamp`; nothing is
/// promised of the value, since it depends on the machine's clock.
#[verifier::external_body]
pub(crate) fn now_unix() -> i64 {
    chrono::Utc::now().timestamp()
}

} // verus!
