//! Microsecond time measures, deadlines and the time sources that produce them.
use vstd::prelude::*;

verus! {

/// Largest value of a time measure; it stands for a deadline that never passes.
pub const FOREVER_MICROS: i64 = 0x7fff_ffff_ffff_ffff;

/// A signed count of microseconds.
///
/// The same type carries durations and the absolute deadlines that a time
/// source makes of them. Zero is the null measure (already expired, do not
/// block) and the largest value is the never-expiring one.
#[derive(Debug, Clone, Copy, PartialEq, Eq, Structural)]
pub struct TimeMeasure(pub i64);

/// Rust's integer division, which rounds toward zero.
pub open spec fn div_toward_zero(a: int, b: int) -> int
    recommends
        b > 0,
{
    if a >= 0 {
        a / b
    } else {
        -((-a) / b)
    }
}

impl TimeMeasure {
    /// The null measure: already expired, do not block.
    pub fn null() -> (r: TimeMeasure)
        ensures
            r.0 == 0,
    {
        TimeMeasure(0)
    }

    /// The measure that never expires.
    pub fn forever() -> (r: TimeMeasure)
        ensures
            r.0 == FOREVER_MICROS,
    {
        TimeMeasure(FOREVER_MICROS)
    }

    pub fn is_null(&self) -> (r: bool)
        ensures
            r == (self.0 == 0),
    {
        self.0 == 0
    }

    pub fn is_forever(&self) -> (r: bool)
        ensures
            r == (self.0 == FOREVER_MICROS),
    {
        self.0 == FOREVER_MICROS
    }

    /// The measure of `us` microseconds, as the bits of a signed 64-bit count.
    pub fn from_micros(us: u64) -> (r: TimeMeasure)
        ensures
            r.0 == us as i64,
            us <= FOREVER_MICROS ==> r.0 == us,
    {
        TimeMeasure(us as i64)
    }

    pub fn from_millis(ms: u64) -> (r: TimeMeasure)
        requires
            ms * 1000 <= FOREVER_MICROS,
        ensures
            r.0 == ms * 1000,
    {
        TimeMeasure(ms as i64 * 1000)
    }

    pub fn from_secs(s: u64) -> (r: TimeMeasure)
        requires
            s * 1_000_000 <= FOREVER_MICROS,
        ensures
            r.0 == s * 1_000_000,
    {
        TimeMeasure(s as i64 * 1_000_000)
    }

    pub fn as_micros(self) -> (r: i64)
        ensures
            r == self.0,
    {
        self.0
    }

    pub fn as_millis(self) -> (r: i64)
        ensures
            r == div_toward_zero(self.0 as int, 1000),
    {
        self.0 / 1000
    }

    pub fn as_secs(self) -> (r: i64)
        ensures
            r == div_toward_zero(self.0 as int, 1_000_000),
    {
        self.0 / 1_000_000
    }
}

/// The deadline that lies `d` after the instant `now`.
///
/// A null duration gives the null deadline (nothing to wait for); a sum that
/// reaches the largest measure gives the never-expiring deadline.
pub open spec fn deadline_after(now: nat, d: TimeMeasure) -> TimeMeasure {
    if d.0 == 0 {
        TimeMeasure(0)
    } else if now + d.0 >= FOREVER_MICROS {
        TimeMeasure(FOREVER_MICROS)
    } else {
        TimeMeasure((now + d.0) as i64)
    }
}

/// Whether `deadline` is still in the future at the instant `now`.
pub open spec fn deadline_pending(deadline: TimeMeasure, now: nat) -> bool {
    if deadline.0 == 0 {
        false
    } else if deadline.0 == FOREVER_MICROS {
        true
    } else {
        now < deadline.0
    }
}

/// A monotonic source of deadlines, provided by the platform.
pub trait TimerSource {
    /// The instant the source stands at, in microseconds since it started.
    spec fn now(&self) -> nat;

    /// Makes the absolute deadline `h` microseconds from now.
    fn create(&self, h: TimeMeasure) -> (r: TimeMeasure)
        ensures
            r == deadline_after(self.now(), h),
    ;

    /// Whether the deadline `h` is still in the future.
    fn until(&self, h: TimeMeasure) -> (r: bool)
        ensures
            r == (self.now() < h.0),
    ;

    /// Microseconds from now to the deadline `h` (negative once it has passed).
    fn diff(&self, h: TimeMeasure) -> (r: i64)
        requires
            h.0 >= 0,
        ensures
            r == h.0 - self.now(),
    ;
}

/// A time source that the tick handler drives: it stands where it was last
/// advanced to.
#[derive(Debug, Clone, Copy)]
pub struct MonotonicClock {
    now: i64,
}

impl MonotonicClock {
    #[verifier::type_invariant]
    spec fn inv(self) -> bool {
        self.now >= 0
    }

    /// The clock at its start, instant zero.
    pub fn new() -> (r: MonotonicClock)
        ensures
            r.now() == 0,
    {
        MonotonicClock { now: 0 }
    }

    /// The clock standing at `us` microseconds.
    pub fn at(us: i64) -> (r: MonotonicClock)
        requires
            us >= 0,
        ensures
            r.now() == us,
    {
        MonotonicClock { now: us }
    }

    /// The instant the clock stands at.
    pub fn micros(&self) -> (r: i64)
        ensures
            r == self.now(),
    {
        proof {
            use_type_invariant(self);
        }
        self.now
    }

    /// Moves the clock `us` microseconds forward; it stops at the largest measure.
    pub fn advance(&mut self, us: i64)
        requires
            us >= 0,
        ensures
            old(self).now() + us <= FOREVER_MICROS ==> final(self).now() == old(self).now() + us,
            old(self).now() + us > FOREVER_MICROS ==> final(self).now() == FOREVER_MICROS,
    {
        proof {
            use_type_invariant(&*self);
        }
        if self.now <= FOREVER_MICROS - us {
            self.now = self.now + us;
        } else {
            self.now = FOREVER_MICROS;
        }
    }
}

impl TimerSource for MonotonicClock {
    closed spec fn now(&self) -> nat {
        if self.now >= 0 {
            self.now as nat
        } else {
            0
        }
    }

    fn create(&self, h: TimeMeasure) -> (r: TimeMeasure) {
        proof {
            use_type_invariant(self);
        }
        if h.0 == 0 {
            TimeMeasure(0)
        } else if h.0 >= FOREVER_MICROS - self.now {
            TimeMeasure(FOREVER_MICROS)
        } else {
            TimeMeasure(self.now + h.0)
        }
    }

    fn until(&self, h: TimeMeasure) -> (r: bool) {
        proof {
            use_type_invariant(self);
        }
        self.now < h.0
    }

    fn diff(&self, h: TimeMeasure) -> (r: i64) {
        proof {
            use_type_invariant(self);
        }
        h.0 - self.now
    }
}

/// A deadline set by a blocking call.
#[derive(Debug, Clone, Copy, PartialEq, Eq, Structural)]
pub struct Timer {
    pub deadline: TimeMeasure,
}

impl Timer {
    /// The timer that has already expired.
    pub fn null() -> (r: Timer)
        ensures
            r.deadline.0 == 0,
    {
        Timer { deadline: TimeMeasure(0) }
    }

    /// The timer that expires `duration` from the source's present instant.
    pub fn new<S: TimerSource>(source: &S, duration: TimeMeasure) -> (r: Timer)
        ensures
            r.deadline == deadline_after(source.now(), duration),
    {
        Timer { deadline: source.create(duration) }
    }

    /// Whether the deadline is still in the future; the null deadline never
    /// is, the never-expiring one always is.
    pub fn until<S: TimerSource>(&self, source: &S) -> (r: bool)
        ensures
            r == deadline_pending(self.deadline, source.now()),
    {
        if self.deadline.0 == 0 {
            false
        } else if self.deadline.0 == FOREVER_MICROS {
            true
        } else {
            source.until(self.deadline)
        }
    }
}

} // verus!
