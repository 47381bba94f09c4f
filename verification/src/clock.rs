//! The wall clock.

use vstd::prelude::*;

verus! {

/// The current time in seconds since the Unix epoch, as `chrono::Utc::now`
/// reads the system clock; nothing is promised of its value.
#[verifier::external_body]
pub(crate) fn now_seconds() -> (r: i64) {
    chrono::Utc::now().timestamp()
}

} // verus!
