//! A monotonic millisecond clock.

use vstd::prelude::*;

verus! {

#[verifier::external_type_specification]
#[verifier::external_body]
pub struct ExInstant(std::time::Instant);

/// `std::time::Instant::now`. Nothing is claimed of the instant returned.
#[verifier::external_body]
fn instant_now() -> std::time::Instant {
    std::time::Instant::now()
}

/// `std::time::Instant::elapsed`. Nothing is claimed of the duration
/// returned.
#[verifier::external_body]
fn instant_elapsed(origin: &std::time::Instant) -> std::time::Duration {
    origin.elapsed()
}

/// `std::time::Duration::as_millis`. Nothing is claimed of the number
/// returned.
#[verifier::external_body]
fn duration_millis(span: &std::time::Duration) -> u128 {
    span.as_millis()
}

/// Milliseconds since the clock was created. A reading is never smaller
/// than the one before it.
pub struct MonotonicClock {
    origin: std::time::Instant,
    latest_ms: u64,
}

impl MonotonicClock {
    /// The latest reading handed out.
    pub closed spec fn latest(&self) -> u64 {
        self.latest_ms
    }

    /// A clock that starts at zero now.
    pub fn new() -> (clock: Self)
        ensures
            clock.latest() == 0,
    {
        MonotonicClock { origin: instant_now(), latest_ms: 0 }
    }

    /// Reads the clock. Whatever the machine reports, the reading does not
    /// go back, and it stops at `u64::MAX`.
    pub fn now_ms(&mut self) -> (now: u64)
        ensures
            now >= old(self).latest(),
            final(self).latest() == now,
    {
        let span = instant_elapsed(&self.origin);
        let raw: u128 = duration_millis(&span);
        let reading: u64 = if raw > u64::MAX as u128 {
            u64::MAX
        } else {
            raw as u64
        };
        if reading > self.latest_ms {
            self.latest_ms = reading;
        }
        self.latest_ms
    }
}

} // verus!
