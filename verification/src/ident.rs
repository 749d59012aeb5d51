//! Source of fresh identifiers for records that need a name.

use vstd::prelude::*;

verus! {

/// A fresh random identifier in hyphenated UUID form.
///
/// Relies on uuid's `Uuid::new_v4` and its `Display` impl: the hyphenated
/// textual form of a UUID is always 36 characters. The value itself is
/// random, so nothing more is promised.
#[verifier::external_body]
pub(crate) fn fresh_id() -> (r: String)
    ensures
        r@.len() == 36,
{
    uuid::Uuid::new_v4().to_string()
}

} // verus!
