//! The monotonic clock by which the cache dates its snapshots.

use vstd::prelude::*;
use std::time::Instant;

verus! {

/// `std::time::Instant`, a moment on the monotonic clock. Nothing inside it
/// is visible here.
#[verifier::external_type_specification]
#[verifier::external_body]
pub struct ExInstant(Instant);

/// `Instant::now`: the present moment on the monotonic clock. Nothing is
/// claimed of it.
#[verifier::external_body]
pub(crate) fn clock_start() -> Instant {
    Instant::now()
}

/// `Instant::elapsed`, in nanoseconds: the time that has passed since
/// `start`. Nothing is claimed of it.
#[verifier::external_body]
pub(crate) fn clock_read(start: &Instant) -> u128 {
    start.elapsed().as_nanos()
}

} // verus!
