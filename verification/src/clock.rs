//! The wall clock, behind a trusted boundary: soft-deletion stamps rows with
//! the current time, which no contract can pin down.

use vstd::prelude::*;

verus! {

/// Relies on chrono::Utc::now and chrono::DateTime::timestamp: the current
/// wall-clock time as whole seconds since the Unix epoch. The value depends
/// on the machine's clock, so nothing is promised of it; callers state what
/// holds of every timestamp.
#[verifier::external_body]
pub(crate) fn current_timestamp() -> i64 {
    chrono::Utc::now().timestamp()
}

} // verus!
