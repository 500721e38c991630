//! The two clock types of the standard library, as far as the library reads them.

use std::time::Duration;
use std::time::Instant;
use vstd::prelude::*;

verus! {

/// A point on the monotonic clock.  Nothing is known of a value of it but that it can
/// be asked how long ago it was taken.
#[verifier::external_type_specification]
#[verifier::external_body]
pub struct ExInstant(Instant);

/// The whole nanoseconds that a `Duration` spans: what `Duration::as_nanos` returns.
pub uninterp spec fn duration_nanos(d: Duration) -> nat;

/// `Duration::as_nanos`: the span in whole nanoseconds.  The contract only gives that
/// number its name; it claims no bound beyond the result's type.
#[verifier::external_body]
pub(crate) fn nanos_of(d: Duration) -> (n: u128)
    ensures
        n == duration_nanos(d),
{
    d.as_nanos()
}

/// `Instant::now`: the current reading of the monotonic clock.  Nothing is promised of
/// the reading.
#[verifier::external_body]
pub(crate) fn now() -> Instant {
    Instant::now()
}

/// `Instant::elapsed`: the time that has passed since `start` was taken.  Nothing is
/// promised of the span.
#[verifier::external_body]
pub(crate) fn elapsed_since(start: &Instant) -> Duration {
    start.elapsed()
}

} // verus!
