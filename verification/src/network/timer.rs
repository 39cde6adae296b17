//! The timers that tell when a connection needs a frame to stay alive.
//!
//! Time is counted in whole nanoseconds.

use vstd::prelude::*;

verus! {

/// The nanoseconds of a second.
pub const SECOND: u64 = 1_000_000_000;

/// A timer that collects the time that passes and rolls over after each
/// period. A rollover takes exactly one period off the collected time: the
/// time beyond it is kept, so that the timer does not drift.
#[derive(Clone, Copy, Debug, PartialEq, Eq, Structural)]
pub struct NetworkTimer {
    pub period: u64,
    pub accumulator: u64,
}

impl NetworkTimer {
    pub fn new(period: u64) -> (timer: Self)
        ensures
            timer == (NetworkTimer { period, accumulator: 0 }),
    {
        NetworkTimer { period, accumulator: 0 }
    }

    /// The time that the timer has collected once the given time has passed.
    /// A timer counts no further than 64 bits reach: time beyond that is lost.
    pub open spec fn collected(self, elapsed_time: u64) -> u64 {
        if self.accumulator + elapsed_time <= u64::MAX {
            (self.accumulator + elapsed_time) as u64
        } else {
            u64::MAX
        }
    }

    /// Whether the timer rolls over when the given time passes: the collected
    /// time then exceeds the period.
    pub open spec fn rolls_over(self, elapsed_time: u64) -> bool {
        self.collected(elapsed_time) > self.period
    }

    /// The timer after the given time has passed. A rollover takes one period
    /// off the collected time.
    pub open spec fn after(self, elapsed_time: u64) -> NetworkTimer {
        NetworkTimer {
            period: self.period,
            accumulator: if self.rolls_over(elapsed_time) {
                (self.collected(elapsed_time) - self.period) as u64
            } else {
                self.collected(elapsed_time)
            },
        }
    }

    /// Lets the given time pass and tells whether the timer rolled over.
    pub fn update(&mut self, elapsed_time: u64) -> (reset: bool)
        ensures
            reset == old(self).rolls_over(elapsed_time),
            *final(self) == old(self).after(elapsed_time),
    {
        self.accumulator = self.accumulator.saturating_add(elapsed_time);
        let reset = self.accumulator > self.period;

        if reset {
            self.accumulator = self.accumulator - self.period;
        }
        reset
    }

    /// The timer after the given times have passed, one after the other.
    pub open spec fn after_all(self, elapsed_times: Seq<u64>) -> NetworkTimer
        decreases elapsed_times.len(),
    {
        if elapsed_times.len() == 0 {
            self
        } else {
            self.after_all(elapsed_times.drop_last()).after(elapsed_times.last())
        }
    }

    /// The number of rollovers while the given times pass, one after the other.
    pub open spec fn rollovers(self, elapsed_times: Seq<u64>) -> nat
        decreases elapsed_times.len(),
    {
        if elapsed_times.len() == 0 {
            0
        } else if self.after_all(elapsed_times.drop_last()).rolls_over(elapsed_times.last()) {
            self.rollovers(elapsed_times.drop_last()) + 1
        } else {
            self.rollovers(elapsed_times.drop_last())
        }
    }
}

/// The sum of the given times.
pub open spec fn total(elapsed_times: Seq<u64>) -> nat
    decreases elapsed_times.len(),
{
    if elapsed_times.len() == 0 {
        0
    } else {
        total(elapsed_times.drop_last()) + elapsed_times.last() as nat
    }
}

/// No time is lost and none is made up: the time that a timer has collected
/// and the periods that it has rolled over are together the time that it had
/// collected before and the time that has passed since. While no single time
/// exceeds the period, the collected time does not exceed it either.
pub proof fn lemma_timer_keeps_time(timer: NetworkTimer, elapsed_times: Seq<u64>)
    requires
        timer.accumulator <= timer.period,
        forall|i: int| 0 <= i < elapsed_times.len() ==> elapsed_times[i] <= timer.period,
        timer.period + timer.period <= u64::MAX,
    ensures
        timer.after_all(elapsed_times).period == timer.period,
        timer.after_all(elapsed_times).accumulator <= timer.period,
        timer.after_all(elapsed_times).accumulator + timer.rollovers(elapsed_times) * timer.period
            == timer.accumulator + total(elapsed_times),
    decreases elapsed_times.len(),
{
    if elapsed_times.len() > 0 {
        let front = elapsed_times.drop_last();
        lemma_timer_keeps_time(timer, front);
        let before = timer.after_all(front);
        let count = timer.rollovers(front);
        assert((count + 1) * timer.period == count * timer.period + timer.period)
            by (nonlinear_arith);
    } else {
        assert(0 * timer.period == 0) by (nonlinear_arith);
    }
}

/// A timer with a period of ten seconds that starts at zero and sees 25
/// seconds pass, in steps of at most ten seconds, rolls over exactly twice and
/// has collected five seconds at the end.
pub proof fn lemma_timer_of_ten_seconds(elapsed_times: Seq<u64>)
    requires
        forall|i: int| 0 <= i < elapsed_times.len() ==> elapsed_times[i] <= 10 * SECOND,
        total(elapsed_times) == 25 * SECOND,
    ensures
        (NetworkTimer { period: (10 * SECOND) as u64, accumulator: 0 }).rollovers(elapsed_times)
            == 2,
        (NetworkTimer { period: (10 * SECOND) as u64, accumulator: 0 }).after_all(
            elapsed_times,
        ).accumulator == 5 * SECOND,
{
    let timer = NetworkTimer { period: (10 * SECOND) as u64, accumulator: 0 };
    lemma_timer_keeps_time(timer, elapsed_times);
    let count = timer.rollovers(elapsed_times);
    let rest = timer.after_all(elapsed_times).accumulator;
    assert(rest + count * 10_000_000_000 == 25_000_000_000);
    assert(count == 2) by (nonlinear_arith)
        requires
            rest + count * 10_000_000_000 == 25_000_000_000,
            0 <= rest <= 10_000_000_000,
    ;
}

} // verus!
