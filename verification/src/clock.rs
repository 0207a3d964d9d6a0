//! Access to the wall clock. The current time depends on the machine and the
//! moment of the call, so nothing is promised of these results; every caller
//! states what holds whatever value comes back.

use vstd::prelude::*;

verus! {

/// Relies on `chrono::Utc::now` and `DateTime::timestamp_millis`: the number
/// of non-leap milliseconds since the Unix epoch at the moment of the call.
#[verifier::external_body]
pub(crate) fn utc_now_millis() -> i64 {
    chrono::Utc::now().timestamp_millis()
}

/// Relies on `chrono::Local::now` and `DateTime::format`: the local time at
/// the moment of the call, written as year, month, day, a dash, and
/// hour, minute, second.
#[verifier::external_body]
pub(crate) fn local_timestamp_suffix() -> String {
    chrono::Local::now().format("%Y%m%d-%H%M%S").to_string()
}

/// The current time as a millisecond count that fits the registry's
/// timestamp fields; moments before the epoch are clamped to zero.
pub fn now_millis() -> u64 {
    let t = utc_now_millis();
    if t < 0 {
        0
    } else {
        t as u64
    }
}

} // verus!
