use std::time::Duration;
use std::time::Instant;
use vstd::prelude::*;

verus! {

/// `std::time::Instant`, carried as an opaque value.
#[verifier::external_type_specification]
#[verifier::external_body]
pub struct ExInstant(Instant);

/// `Instant::now`: a reading of the monotonic clock. Nothing is claimed of
/// the reading.
#[verifier::external_body]
fn instant_now() -> Instant {
    Instant::now()
}

/// `Instant::elapsed`: the time that has passed since `start`. Nothing is
/// claimed of the result.
#[verifier::external_body]
fn instant_elapsed(start: &Instant) -> Duration {
    start.elapsed()
}

/// `Duration::as_nanos`: the whole duration in nanoseconds. A `Duration` is
/// opaque here, so the number is not related to it.
#[verifier::external_body]
fn duration_as_nanos(duration: &Duration) -> u128 {
    duration.as_nanos()
}

/// A count of nanoseconds as a `u64`, held at `u64::MAX` where it no longer
/// fits.
pub fn saturate(nanos: u128) -> (held: u64)
    ensures
        held == if nanos > u64::MAX {
            u64::MAX
        } else {
            nanos as u64
        },
{
    if nanos > 0xffff_ffff_ffff_ffffu128 {
        u64::MAX
    } else {
        nanos as u64
    }
}

/// A monotonic clock that counts nanoseconds from the moment it was made.
pub struct Clock {
    epoch: Instant,
}

impl Clock {
    /// A clock whose epoch is now.
    pub fn new() -> Clock {
        Clock { epoch: instant_now() }
    }

    /// The nanoseconds since the epoch, held at `u64::MAX` once they no longer fit.
    pub fn now(&self) -> u64 {
        let elapsed = instant_elapsed(&self.epoch);
        saturate(duration_as_nanos(&elapsed))
    }
}

} // verus!
