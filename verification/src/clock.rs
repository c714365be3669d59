use vstd::prelude::*;

verus! {

/// Relies on chrono::Utc::now (and DateTime::timestamp_micros, which
/// returns the instant as microseconds since the Unix epoch): the current
/// wall-clock time. The value depends on the clock, so nothing is promised
/// of it; no contract in this crate orders events by wall-clock time.
#[verifier::external_body]
pub(crate) fn now_micros() -> i64 {
    chrono::Utc::now().timestamp_micros()
}

} // verus!
