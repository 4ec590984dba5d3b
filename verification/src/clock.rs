//! The wall clock, read in milliseconds.

use vstd::prelude::*;

verus! {

/// Reads the current time with `chrono::Utc::now` and returns
/// `DateTime::timestamp_millis` of it: milliseconds since the Unix epoch.
/// Nothing is promised of the value; two readings need not even be ordered.
#[verifier::external_body]
pub(crate) fn now_millis() -> (now: i64) {
    chrono::Utc::now().timestamp_millis()
}

} // verus!
