//! The system clock.
use vstd::prelude::*;

verus! {

/// std's `SystemTime`, declared so that the clock's wrappers can take and
/// return it; a value of it is opaque here.
#[verifier::external_type_specification]
#[verifier::external_body]
pub struct ExSystemTime(std::time::SystemTime);

/// std's `SystemTime::now`: the current time of the system clock. Nothing is
/// promised of the value.
#[verifier::external_body]
fn system_now() -> std::time::SystemTime {
    std::time::SystemTime::now()
}

/// std's `SystemTime::duration_since`, taken against `UNIX_EPOCH`: the time
/// elapsed since the epoch, or `None` where `t` lies before it. Nothing is
/// promised of the duration.
#[verifier::external_body]
fn since_epoch(t: &std::time::SystemTime) -> Option<std::time::Duration> {
    match t.duration_since(std::time::UNIX_EPOCH) {
        Ok(d) => Some(d),
        Err(_) => None,
    }
}

/// std's `Duration::as_millis`: the whole milliseconds of a duration. A
/// `Duration` is opaque here, so nothing is stated of the result.
#[verifier::external_body]
fn whole_millis(d: &std::time::Duration) -> u128 {
    d.as_millis()
}

/// Milliseconds since the Unix epoch on the system clock, or 0 where the
/// clock stands before the epoch.
pub fn clock_millis() -> u128 {
    match since_epoch(&system_now()) {
        Some(d) => whole_millis(&d),
        None => 0,
    }
}

} // verus!
