//! A stopwatch for pacing the game loop.

use vstd::prelude::*;
use std::time::{Duration, Instant};

verus! {

/// `std::time::Instant`, a reading of the monotonic clock. Nothing is known of
/// what it holds.
#[verifier::external_type_specification]
#[verifier::external_body]
pub struct ExInstant(Instant);

/// `Instant::now` reads the clock. Nothing is claimed of the reading.
pub assume_specification[ Instant::now ]() -> (now: Instant);

/// `Instant::duration_since` measures the time from `earlier` to `later`, or
/// zero where `earlier` is the later of the two. Nothing is claimed of the
/// measure.
pub assume_specification[ Instant::duration_since ](later: &Instant, earlier: Instant) -> (elapsed: Duration);

/// `Duration::as_nanos` counts the whole nanoseconds in a duration. A
/// duration is opaque here, so nothing is claimed of the count.
pub assume_specification[ Duration::as_nanos ](duration: &Duration) -> (nanos: u128);

/// Measures the time since it was started or last reset.
pub struct Timer {
    start: Instant,
    delta: Option<u128>,
}

impl Timer {
    /// The reading of the clock the timer measures from.
    pub closed spec fn start(&self) -> Instant {
        self.start
    }

    /// The nanoseconds measured at the last tick, if there was a tick since
    /// the timer was started or reset.
    pub closed spec fn measured(&self) -> Option<u128> {
        self.delta
    }

    /// A timer started now, with nothing measured yet.
    pub fn new() -> (r: Self)
        ensures
            r.measured() is None,
    {
        Self::started_at(Instant::now())
    }

    /// A timer that measures from the given reading of the clock, with
    /// nothing measured yet.
    pub fn started_at(start: Instant) -> (r: Self)
        ensures
            r.start() == start,
            r.measured() is None,
    {
        Self { start, delta: None }
    }

    /// Measures the time since the start. The start stays where it is.
    pub fn tick(&mut self)
        ensures
            final(self).start() == old(self).start(),
            final(self).measured() is Some,
    {
        let elapsed = Instant::now().duration_since(self.start);
        self.record(elapsed.as_nanos());
    }

    /// Takes down a measure of the given number of nanoseconds in place of
    /// the last one. The start stays where it is.
    pub fn record(&mut self, elapsed_nanos: u128)
        ensures
            final(self).start() == old(self).start(),
            final(self).measured() == Some(elapsed_nanos),
    {
        self.delta = Some(elapsed_nanos);
    }

    /// The nanoseconds measured at the last tick.
    pub fn delta(&self) -> (r: Option<u128>)
        ensures
            r == self.measured(),
    {
        self.delta
    }

    /// Starts over from now and forgets the last measure.
    pub fn reset(&mut self)
        ensures
            final(self).measured() is None,
    {
        self.reset_at(Instant::now());
    }

    /// Starts over from the given reading of the clock and forgets the last
    /// measure.
    pub fn reset_at(&mut self, now: Instant)
        ensures
            final(self).start() == now,
            final(self).measured() is None,
    {
        self.start = now;
        self.delta = None;
    }
}

} // verus!
