//! Wall-clock timing utilities: a start/stop timer over the monotonic
//! clock, and a counter aggregating recorded durations.
//!
//! Clock readings are environment-dependent, so nothing is promised about
//! the measured values; durations handed to the counter are plain
//! nanosecond counts, and the aggregation over them is exact.
use vstd::prelude::*;

verus! {

#[verifier::external_type_specification]
#[verifier::external_body]
pub struct ExInstant(std::time::Instant);

/// Relies on `std::time::Instant::now`: a reading of the monotonic clock.
#[verifier::external_body]
fn now_instant() -> std::time::Instant {
    std::time::Instant::now()
}

/// Relies on `std::time::Instant::elapsed` and `Duration::as_nanos`: the
/// nanoseconds the monotonic clock has advanced since the reading.
#[verifier::external_body]
fn elapsed_nanos(start: &std::time::Instant) -> u128 {
    start.elapsed().as_nanos()
}

/// A stopwatch over the monotonic clock. Durations are reported in
/// nanoseconds; since they depend on the clock, only the running state is
/// specified.
pub struct Timer {
    start_time: Option<std::time::Instant>,
}

impl Timer {
    /// Whether the timer has been started and not yet stopped.
    pub closed spec fn is_running(&self) -> bool {
        self.start_time is Some
    }

    /// A stopped timer.
    pub fn new() -> (r: Timer)
        ensures
            !r.is_running(),
    {
        Timer { start_time: None }
    }

    /// Start (or restart) the timer at the current clock reading.
    pub fn start(&mut self)
        ensures
            final(self).is_running(),
    {
        self.start_time = Some(now_instant());
    }

    /// Stop the timer, returning the nanoseconds since it was started, or
    /// `None` if it was not running.
    pub fn stop(&mut self) -> (r: Option<u128>)
        ensures
            !final(self).is_running(),
            r is Some <==> old(self).is_running(),
    {
        match self.start_time.take() {
            Some(start) => Some(elapsed_nanos(&start)),
            None => None,
        }
    }

    /// The nanoseconds since the timer was started, without stopping it, or
    /// `None` if it is not running.
    pub fn elapsed(&self) -> (r: Option<u128>)
        ensures
            r is Some <==> self.is_running(),
    {
        match &self.start_time {
            Some(start) => Some(elapsed_nanos(start)),
            None => None,
        }
    }
}

/// Aggregates recorded durations (in nanoseconds): how many, their total,
/// and the smallest and largest seen.
pub struct PerformanceCounter {
    count: u64,
    total_time: u128,
    min_time: Option<u64>,
    max_time: Option<u64>,
}

impl PerformanceCounter {
    /// Number of durations recorded.
    pub closed spec fn count_spec(&self) -> u64 {
        self.count
    }

    /// Sum of all recorded durations.
    pub closed spec fn total_spec(&self) -> u128 {
        self.total_time
    }

    /// The smallest recorded duration.
    pub closed spec fn min_spec(&self) -> Option<u64> {
        self.min_time
    }

    /// The largest recorded duration.
    pub closed spec fn max_spec(&self) -> Option<u64> {
        self.max_time
    }

    /// A counter with nothing recorded.
    pub fn new() -> (r: PerformanceCounter)
        ensures
            r.count_spec() == 0,
            r.total_spec() == 0,
            r.min_spec() is None,
            r.max_spec() is None,
    {
        PerformanceCounter { count: 0, total_time: 0, min_time: None, max_time: None }
    }

    /// Record one duration: the count grows by one, the total by the
    /// duration, and the extremes absorb it.
    pub fn record(&mut self, duration: u64)
        requires
            old(self).count_spec() < u64::MAX,
            old(self).total_spec() + duration <= u128::MAX,
        ensures
            final(self).count_spec() == old(self).count_spec() + 1,
            final(self).total_spec() == old(self).total_spec() + duration,
            final(self).min_spec() == Some(
                match old(self).min_spec() {
                    Some(m) => if duration < m {
                        duration
                    } else {
                        m
                    },
                    None => duration,
                },
            ),
            final(self).max_spec() == Some(
                match old(self).max_spec() {
                    Some(m) => if duration > m {
                        duration
                    } else {
                        m
                    },
                    None => duration,
                },
            ),
    {
        self.count = self.count + 1;
        self.total_time = self.total_time + duration as u128;
        self.min_time = Some(
            match self.min_time {
                Some(m) => if duration < m {
                    duration
                } else {
                    m
                },
                None => duration,
            },
        );
        self.max_time = Some(
            match self.max_time {
                Some(m) => if duration > m {
                    duration
                } else {
                    m
                },
                None => duration,
            },
        );
    }

    /// The mean recorded duration (zero when nothing was recorded).
    pub fn average_time(&self) -> (r: u128)
        ensures
            r == if self.count_spec() == 0 {
                0u128
            } else {
                (self.total_spec() / self.count_spec() as u128) as u128
            },
    {
        if self.count == 0 {
            0
        } else {
            self.total_time / self.count as u128
        }
    }

    /// Number of durations recorded.
    pub fn count(&self) -> (r: u64)
        ensures
            r == self.count_spec(),
    {
        self.count
    }

    /// The smallest recorded duration.
    pub fn min_time(&self) -> (r: Option<u64>)
        ensures
            r == self.min_spec(),
    {
        self.min_time
    }

    /// The largest recorded duration.
    pub fn max_time(&self) -> (r: Option<u64>)
        ensures
            r == self.max_spec(),
    {
        self.max_time
    }
}

} // verus!
