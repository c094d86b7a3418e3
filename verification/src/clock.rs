//! The clock by which file sinks time their flushes.
use std::time::Instant;
use vstd::prelude::*;

verus! {

/// Nanoseconds in one second.
pub const NANOS_PER_SECOND: u128 = 1_000_000_000;

/// A point in time of the monotonic clock of `std`. Nothing is known of what
/// one holds.
#[verifier::external_type_specification]
#[verifier::external_body]
pub struct ExInstant(std::time::Instant);

/// Reads the monotonic clock.
///
/// Calls `std::time::Instant::now`. The contract claims nothing of the result.
#[verifier::external_body]
fn instant_now() -> Instant {
    Instant::now()
}

/// The time that has passed since `origin`, in nanoseconds.
///
/// Calls `std::time::Instant::elapsed` and takes the duration's
/// `as_nanos`. The result depends on when the call is made, so the contract
/// claims nothing of it.
#[verifier::external_body]
fn nanos_since(origin: &Instant) -> u128 {
    origin.elapsed().as_nanos()
}

/// A clock that counts nanoseconds from the moment it was made.
#[derive(Debug, Clone, Copy)]
pub struct Clock {
    origin: Instant,
}

impl Clock {
    /// A clock that starts now.
    pub fn new() -> Clock {
        Clock { origin: instant_now() }
    }

    /// The clock's reading: nanoseconds since it was made. Nothing is promised
    /// of a reading; what is done with one is stated where it is used.
    pub fn now(&self) -> u128 {
        nanos_since(&self.origin)
    }
}

} // verus!
