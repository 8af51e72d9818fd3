use vstd::prelude::*;

verus! {

/// Relies on chrono's `From<SystemTime> for DateTime<Utc>` and
/// `timestamp_millis`: the wall-clock time in milliseconds since the Unix
/// epoch, negative where the system clock reads before 1970. It depends on
/// the moment of the call, so nothing is promised of the value. (The
/// conversion panics only for a clock outside chrono's range of about
/// 262,000 years around year 0.)
#[verifier::external_body]
pub(crate) fn wall_clock_millis() -> (r: i64) {
    chrono::DateTime::<chrono::Utc>::from(std::time::SystemTime::now()).timestamp_millis()
}

} // verus!
