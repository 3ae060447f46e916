//! Time as the library sees it: a span is a number of nanoseconds.

use core::time::Duration;
use std::time::Instant;

use vstd::prelude::*;

verus! {

/// `std::time::Instant`, a reading of the monotonic clock. It is only carried.
#[verifier::external_type_specification]
#[verifier::external_body]
pub struct ExInstant(Instant);

/// The number of nanoseconds in a `Duration`.
pub uninterp spec fn duration_nanos(d: Duration) -> nat;

/// `Duration::as_nanos` gives the whole span in nanoseconds.
pub assume_specification[ Duration::as_nanos ](d: &Duration) -> (r: u128)
    ensures
        r == duration_nanos(*d),
;

/// `Duration::from_secs` makes a span of that many seconds.
pub assume_specification[ Duration::from_secs ](secs: u64) -> (r: Duration)
    ensures
        duration_nanos(r) == secs * 1_000_000_000,
;

/// `Instant::now` reads the clock. Nothing is said of the reading.
pub assume_specification[ Instant::now ]() -> Instant;

/// `Instant::elapsed` reads the clock and gives the span since the instant. Nothing is said of
/// the reading.
pub assume_specification[ Instant::elapsed ](start: &Instant) -> Duration;

/// Nanoseconds in one second.
pub const NANOS_PER_SEC: u128 = 1_000_000_000;

/// `secs` seconds in nanoseconds.
pub fn secs_to_nanos(secs: u64) -> (r: u128)
    ensures
        r == secs * 1_000_000_000,
{
    secs as u128 * NANOS_PER_SEC
}

} // verus!
