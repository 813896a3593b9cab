use vstd::prelude::*;

verus! {

/// Relies on chrono::Utc::now and DateTime::timestamp_millis: the wall clock in
/// milliseconds since the Unix epoch. Nothing is promised of its value.
#[verifier::external_body]
fn utc_now_millis() -> (r: i64) {
    chrono::Utc::now().timestamp_millis()
}

/// The wall clock in milliseconds since the Unix epoch; a clock set before
/// the epoch reads as zero.
pub fn now_millis() -> (r: u64) {
    let t = utc_now_millis();
    if t < 0 {
        0
    } else {
        t as u64
    }
}

} // verus!
