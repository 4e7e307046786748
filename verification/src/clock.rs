//! Clock readings.  Their values depend on the time of the call, so the
//! contracts below promise nothing about them.

use std::time::{Duration, Instant};
use vstd::prelude::*;

verus! {

/// `std::time::Instant`, carried through as an opaque timestamp.
#[verifier::external_type_specification]
#[verifier::external_body]
pub struct ExInstant(Instant);

/// `Instant::now()`.
#[verifier::external_body]
pub(crate) fn instant_now() -> Instant {
    Instant::now()
}

/// `at.elapsed().as_nanos()`.
#[verifier::external_body]
pub(crate) fn elapsed_nanos(at: &Instant) -> u128 {
    at.elapsed().as_nanos()
}

/// `at.elapsed().as_secs()`.
#[verifier::external_body]
pub(crate) fn elapsed_secs(at: &Instant) -> u64 {
    at.elapsed().as_secs()
}

/// The whole nanoseconds a duration spans (`Duration::as_nanos`).
pub uninterp spec fn duration_in_nanos(d: Duration) -> u128;

/// `d.as_nanos()`: the duration's whole nanoseconds.
#[verifier::external_body]
pub(crate) fn duration_nanos(d: &Duration) -> (n: u128)
    ensures
        n == duration_in_nanos(*d),
{
    d.as_nanos()
}

/// `chrono::Utc::now().timestamp()`: seconds since the Unix epoch.
#[verifier::external_body]
pub(crate) fn unix_now_secs() -> i64 {
    chrono::Utc::now().timestamp()
}

} // verus!
