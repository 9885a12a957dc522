//! A clock giving time points as nanoseconds since its start.
use vstd::prelude::*;
use std::time::{Duration, Instant};

verus! {

#[verifier::external_type_specification]
#[verifier::external_body]
pub struct ExInstant(Instant);

/// Calls `std::time::Instant::now`. Nothing is claimed of the result: it
/// depends on the machine's clock.
#[verifier::external_body]
fn instant_now() -> Instant {
    Instant::now()
}

/// Calls `std::time::Instant::elapsed` on `origin`. Nothing is claimed of
/// the result: it depends on the machine's clock.
#[verifier::external_body]
fn instant_elapsed(origin: &Instant) -> Duration {
    origin.elapsed()
}

/// Calls `std::time::Duration::as_nanos`: the whole number of nanoseconds
/// of `d`. Nothing is claimed of the result, as `Duration` is opaque here.
#[verifier::external_body]
fn duration_as_nanos(d: &Duration) -> u128 {
    d.as_nanos()
}

/// A clock started at some instant; it reads time points as the number of
/// nanoseconds elapsed since that instant.
pub struct Clock {
    origin: Instant,
}

impl Clock {
    /// A clock started now.
    pub fn start() -> Clock {
        Clock { origin: instant_now() }
    }

    /// The current time point of this clock, in nanoseconds since its start
    /// (`u64::MAX` once more than that has elapsed).
    pub fn now(&self) -> u64 {
        let nanos = duration_as_nanos(&instant_elapsed(&self.origin));
        if nanos > u64::MAX as u128 {
            u64::MAX
        } else {
            nanos as u64
        }
    }
}

} // verus!
