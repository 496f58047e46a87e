//! The system clock.

use vstd::prelude::*;

verus! {

/// Relies on chrono::Utc::now and DateTime::timestamp: the current
/// moment as whole seconds since the Unix epoch. A clock reading is
/// outside the library's control, so nothing is promised of the value;
/// callers state what holds at every instant.
#[verifier::external_body]
pub fn now_ts() -> i64 {
    chrono::Utc::now().timestamp()
}

} // verus!
