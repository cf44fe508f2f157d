//! Points in time and spans between them, counted in nanoseconds.
use vstd::prelude::*;

verus! {

/// A span of time.
#[derive(Clone, Copy, Debug, PartialEq, Eq, Structural)]
pub struct Duration {
    pub nanos: u128,
}

/// A reading of a [`Clock`]: the time since the moment from which it counts.
#[derive(Clone, Copy, Debug, PartialEq, Eq, Structural)]
pub struct Instant {
    pub nanos: u128,
}

/// A point in time on the scale of [`Instant`], up to which something is waited
/// for.
#[derive(Clone, Copy, Debug, PartialEq, Eq, Structural)]
pub struct Deadline {
    pub nanos: u128,
}

/// The lesser of two numbers.
pub open spec fn min(a: int, b: int) -> int {
    if a <= b {
        a
    } else {
        b
    }
}

/// The greater of two numbers.
pub open spec fn max(a: int, b: int) -> int {
    if a >= b {
        a
    } else {
        b
    }
}

/// `a - b`, or zero where `b` is greater.
pub open spec fn monus(a: int, b: int) -> int {
    max(a - b, 0)
}

impl Duration {
    pub fn from_secs(secs: u64) -> (r: Self)
        ensures
            r.nanos == secs * 1_000_000_000,
    {
        Duration { nanos: secs as u128 * 1_000_000_000 }
    }

    pub fn from_millis(millis: u64) -> (r: Self)
        ensures
            r.nanos == millis * 1_000_000,
    {
        Duration { nanos: millis as u128 * 1_000_000 }
    }

    pub fn from_micros(micros: u64) -> (r: Self)
        ensures
            r.nanos == micros * 1_000,
    {
        Duration { nanos: micros as u128 * 1_000 }
    }

    /// The whole milliseconds in the span.
    pub fn as_millis(&self) -> (r: u128)
        ensures
            r == self.nanos / 1_000_000,
    {
        self.nanos / 1_000_000
    }

    /// The whole microseconds in the span.
    pub fn as_micros(&self) -> (r: u128)
        ensures
            r == self.nanos / 1_000,
    {
        self.nanos / 1_000
    }

    /// The longer of two spans.
    pub fn longer(self, other: Self) -> (r: Self)
        ensures
            r.nanos == max(self.nanos as int, other.nanos as int),
    {
        if self.nanos >= other.nanos {
            self
        } else {
            other
        }
    }

    /// Both spans together. A sum that does not fit becomes the longest span.
    pub fn plus(self, other: Self) -> (r: Self)
        ensures
            r.nanos == min(self.nanos + other.nanos, u128::MAX as int),
    {
        match self.nanos.checked_add(other.nanos) {
            Some(nanos) => Duration { nanos },
            None => Duration { nanos: u128::MAX },
        }
    }

    /// The span `factor` times over. A product that does not fit becomes the
    /// longest span.
    pub fn times(self, factor: u32) -> (r: Self)
        ensures
            r.nanos == min(self.nanos * factor, u128::MAX as int),
    {
        match self.nanos.checked_mul(factor as u128) {
            Some(nanos) => Duration { nanos },
            None => Duration { nanos: u128::MAX },
        }
    }

    /// Whether the span `factor` times over is no longer than `limit`.
    pub fn times_within(self, factor: u32, limit: Self) -> (r: bool)
        ensures
            r == (self.nanos * factor <= limit.nanos),
    {
        match self.nanos.checked_mul(factor as u128) {
            Some(nanos) => nanos <= limit.nanos,
            None => false,
        }
    }
}

impl Instant {
    /// The time from `earlier` to this reading, zero where `earlier` is later.
    pub fn duration_since(&self, earlier: Instant) -> (r: Duration)
        ensures
            r.nanos == monus(self.nanos as int, earlier.nanos as int),
    {
        if self.nanos >= earlier.nanos {
            Duration { nanos: self.nanos - earlier.nanos }
        } else {
            Duration { nanos: 0 }
        }
    }

    /// The point that lies `span` after this reading.
    pub fn after(&self, span: Duration) -> (r: Deadline)
        ensures
            r.nanos == min(self.nanos + span.nanos, u128::MAX as int),
    {
        match span.nanos.checked_add(self.nanos) {
            Some(nanos) => Deadline { nanos },
            None => Deadline { nanos: u128::MAX },
        }
    }
}

impl Deadline {
    /// The time left at `now`, zero once the deadline has passed.
    pub fn saturating_duration_since(&self, now: Instant) -> (r: Duration)
        ensures
            r.nanos == monus(self.nanos as int, now.nanos as int),
    {
        if self.nanos >= now.nanos {
            Duration { nanos: self.nanos - now.nanos }
        } else {
            Duration { nanos: 0 }
        }
    }

    /// Whether the deadline lies before `now`.
    pub fn has_passed(&self, now: Instant) -> (r: bool)
        ensures
            r == (self.nanos < now.nanos),
    {
        self.nanos < now.nanos
    }
}

/// `std::time::Instant`.
#[verifier::external_type_specification]
#[verifier::external_body]
pub struct ExStdInstant(std::time::Instant);

/// `std::time::Instant::now` reads the clock of the machine. Nothing is said
/// of the reading.
pub assume_specification[ std::time::Instant::now ]() -> std::time::Instant;

/// The nanoseconds from one moment of the clock of the machine to another.
pub uninterp spec fn nanos_between(from: std::time::Instant, to: std::time::Instant) -> u128;

/// `std::time::Instant::saturating_duration_since`, as nanoseconds: the time
/// from `from` to `to`, which depends on these two moments alone.
#[verifier::external_body]
fn nanos_since(to: &std::time::Instant, from: &std::time::Instant) -> (r: u128)
    ensures
        r == nanos_between(*from, *to),
{
    to.saturating_duration_since(*from).as_nanos()
}

/// The clock of the machine, counted from some moment on.
#[derive(Clone, Copy, Debug)]
pub struct Clock {
    epoch: std::time::Instant,
}

impl Clock {
    /// The moment from which the clock counts.
    pub closed spec fn epoch(&self) -> std::time::Instant {
        self.epoch
    }

    /// What the clock shows at a moment of the clock of the machine.
    pub open spec fn reading(&self, moment: std::time::Instant) -> Instant {
        Instant { nanos: nanos_between(self.epoch(), moment) }
    }

    /// A clock that counts from now on. Nothing is said of the moment at which
    /// that is.
    pub fn new() -> Self {
        Clock { epoch: std::time::Instant::now() }
    }

    /// A clock that counts from `epoch` on.
    pub fn from_epoch(epoch: std::time::Instant) -> (r: Self)
        ensures
            r.epoch() == epoch,
    {
        Clock { epoch }
    }

    /// The reading at a moment of the clock of the machine.
    pub fn reading_at(&self, moment: &std::time::Instant) -> (r: Instant)
        ensures
            r == self.reading(*moment),
    {
        Instant { nanos: nanos_since(moment, &self.epoch) }
    }

    /// The present reading.
    pub fn now(&self) -> (r: Instant)
        ensures
            exists|moment: std::time::Instant| r == #[trigger] self.reading(moment),
    {
        let moment = std::time::Instant::now();
        self.reading_at(&moment)
    }
}

} // verus!
