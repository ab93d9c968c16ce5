//! The monotonic clock, read as nanoseconds since an origin.

use std::time::Instant;
use vstd::prelude::*;

verus! {

/// `std::time::Instant`, carried through as an opaque origin.
#[verifier::external_type_specification]
#[verifier::external_body]
pub struct ExInstant(std::time::Instant);

/// Calls `std::time::Instant::now`. Nothing is promised of the instant.
#[verifier::external_body]
pub(crate) fn instant_now() -> Instant {
    Instant::now()
}

/// Calls `std::time::Instant::elapsed` and reads it in nanoseconds. Nothing
/// is promised of the count: it is the time that has passed.
#[verifier::external_body]
pub(crate) fn nanos_since(origin: &Instant) -> u64 {
    origin.elapsed().as_nanos() as u64
}

} // verus!
