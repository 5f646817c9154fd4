use vstd::prelude::*;

verus! {

pub const MICROS_PER_SEC: i64 = 1_000_000;

/// The timer's period in microseconds for `frequency` signals a second:
/// a second divided by the frequency, rounded down, and at least one.
pub open spec fn period_micros(frequency: int) -> int {
    let p = 1_000_000int / frequency;
    if p < 1 {
        1
    } else {
        p
    }
}

/// The period of an interval timer, as whole seconds and the microseconds
/// beyond them.
#[derive(Clone, Copy, Debug, PartialEq, Eq, Structural)]
pub struct TimerPeriod {
    pub sec: i64,
    pub usec: i64,
}

impl TimerPeriod {
    /// The period that fires `frequency` times a second.
    pub fn from_frequency(frequency: i32) -> (r: TimerPeriod)
        requires
            frequency >= 1,
        ensures
            r.sec == period_micros(frequency as int) / 1_000_000,
            r.usec == period_micros(frequency as int) % 1_000_000,
            0 <= r.usec < 1_000_000,
    {
        let f: i64 = frequency as i64;
        let q: i64 = MICROS_PER_SEC / f;
        let micros: i64 = if q < 1 {
            1
        } else {
            q
        };
        TimerPeriod { sec: micros / MICROS_PER_SEC, usec: micros % MICROS_PER_SEC }
    }

    /// A zero period, which disarms the timer.
    pub fn zero() -> (r: TimerPeriod)
        ensures
            r.sec == 0 && r.usec == 0,
    {
        TimerPeriod { sec: 0, usec: 0 }
    }
}

} // verus!
