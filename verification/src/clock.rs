//! The monotonic clock of std, read in nanoseconds.

use std::time::{Duration, Instant};
use vstd::prelude::*;

verus! {

/// `std::time::Instant`. Nothing inside it is seen from here.
#[verifier::external_type_specification]
#[verifier::external_body]
pub struct ExInstant(Instant);

/// `std::time::Instant::now`. Nothing is claimed of the instant.
#[verifier::external_body]
pub(crate) fn instant_now() -> Instant {
    Instant::now()
}

/// `std::time::Instant::elapsed`. Nothing is claimed of the duration: it
/// depends on when the call is made.
#[verifier::external_body]
pub(crate) fn instant_elapsed(start: &Instant) -> Duration {
    start.elapsed()
}

/// `std::time::Duration::as_nanos`. Nothing is claimed of the number.
#[verifier::external_body]
pub(crate) fn duration_as_nanos(duration: &Duration) -> u128 {
    duration.as_nanos()
}

/// The nanoseconds that have passed since `start`, as the clock reports them.
pub(crate) fn nanos_since(start: &Instant) -> u128 {
    let elapsed = instant_elapsed(start);
    duration_as_nanos(&elapsed)
}

} // verus!
