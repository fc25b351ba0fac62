//! The wall clock and calendar formatting, taken from `chrono`.
//!
//! Engine operations take the current time as an argument; the surrounding
//! application reads it here once per call.

use vstd::prelude::*;

verus! {

/// Largest Unix timestamp (end of year 9999) that `format_timestamp` admits;
/// `chrono` resolves every second in `0..=MAX_FORMAT_TIMESTAMP` to a date.
pub const MAX_FORMAT_TIMESTAMP: i64 = 253402300799;

/// The text `chrono` prints for the Unix second `t` in the pattern
/// `%Y-%m-%d %H:%M:%S` (UTC); it depends on `t` alone.
pub uninterp spec fn timestamp_text(t: int) -> Seq<char>;

/// Relies on `chrono::Utc::now`: the current Unix second. Nothing can be
/// promised of a clock reading.
#[verifier::external_body]
pub fn clock_now() -> i64 {
    chrono::Utc::now().timestamp()
}

/// The current Unix second, clamped below at zero so that callers can work
/// in unsigned time.
pub fn now_seconds() -> u64 {
    let t = clock_now();
    if t < 0 {
        0
    } else {
        t as u64
    }
}

/// Relies on `chrono::DateTime::from_timestamp` and `format`: renders the
/// Unix second `t` as `%Y-%m-%d %H:%M:%S` in UTC. `from_timestamp` returns
/// a date for every second in the admitted range.
#[verifier::external_body]
pub fn format_timestamp(t: i64) -> (r: String)
    requires
        0 <= t <= MAX_FORMAT_TIMESTAMP,
    ensures
        r@ == timestamp_text(t as int),
{
    let date = chrono::DateTime::<chrono::Utc>::from_timestamp(t, 0).unwrap();
    date.format("%Y-%m-%d %H:%M:%S").to_string()
}

} // verus!
