//! Monotonic time: instants and elapsed milliseconds.

use vstd::prelude::*;
use std::time::{Duration, Instant};

verus! {

/// `std::time::Instant`, carried through the library as an opaque value.
#[verifier::external_type_specification]
#[verifier::external_body]
pub struct ExInstant(Instant);

/// The current instant of the monotonic clock (`Instant::now`).  Nothing is promised of
/// the value: it depends on when it is called.
#[verifier::external_body]
pub(crate) fn instant_now() -> Instant {
    Instant::now()
}

/// Time passed since `start` (`Instant::elapsed`).  Nothing is promised of the value: it
/// depends on when it is called.
#[verifier::external_body]
fn instant_elapsed(start: &Instant) -> Duration {
    start.elapsed()
}

/// Whole milliseconds of a duration (`Duration::as_millis`).  The duration is opaque to
/// the library, so nothing is stated of the number.
#[verifier::external_body]
fn duration_millis(d: &Duration) -> u128 {
    d.as_millis()
}

/// A millisecond count clamped to the range of `u64`.
pub open spec fn spec_saturate_millis(millis: u128) -> u64 {
    if millis > u64::MAX as u128 {
        u64::MAX
    } else {
        millis as u64
    }
}

/// Clamps a millisecond count to `u64`, saturating at `u64::MAX`.
pub fn saturate_millis(millis: u128) -> (r: u64)
    ensures
        r == spec_saturate_millis(millis),
{
    if millis > u64::MAX as u128 {
        u64::MAX
    } else {
        millis as u64
    }
}

/// Milliseconds elapsed since `start`, saturating at `u64::MAX`.
pub fn elapsed_ms(start: Instant) -> (r: u64) {
    let d = instant_elapsed(&start);
    saturate_millis(duration_millis(&d))
}

} // verus!
