//! Time from the architectural counter: converting counter values to
//! durations, and the counter value at which a wait ends.
//!
//! Reading the counter and its frequency is the caller's part; the functions
//! here take both as plain numbers.

use vstd::prelude::*;

verus! {

pub const NANOSEC_PER_SEC: u64 = 1_000_000_000;

/// A span of time in whole seconds and the nanoseconds beyond them.
#[derive(Clone, Copy, Debug, PartialEq, Eq, Structural)]
pub struct Duration {
    pub secs: u64,
    pub nanos: u32,
}

impl Duration {
    /// The span in nanoseconds.
    pub open spec fn total_nanos(self) -> int {
        self.secs as int * NANOSEC_PER_SEC as int + self.nanos as int
    }
}

/// The span that `counter` ticks of a counter running at `frequency` ticks per
/// second last, rounded down to whole nanoseconds.
pub open spec fn counter_duration(counter: u64, frequency: u64) -> Duration {
    Duration {
        secs: (counter as int / frequency as int) as u64,
        nanos: ((counter as int % frequency as int) * NANOSEC_PER_SEC as int / frequency as int) as u32,
    }
}

/// How many whole ticks of a counter at `frequency` fit into `d`.
pub open spec fn duration_ticks(d: Duration, frequency: u64) -> int {
    d.secs as int * frequency as int + d.nanos as int * frequency as int / NANOSEC_PER_SEC as int
}

/// A counter value of the architectural timer.
#[derive(Clone, Copy, Debug, PartialEq, Eq, Structural)]
pub struct GenericTimerCounterValue(pub u64);

/// Converts a counter value to the span it stands for.
pub fn counter_value_to_duration(counter_value: GenericTimerCounterValue, frequency: u64) -> (r: Duration)
    requires
        frequency > 0,
    ensures
        r == counter_duration(counter_value.0, frequency),
        r.nanos < NANOSEC_PER_SEC,
{
    if counter_value.0 == 0 {
        return Duration { secs: 0, nanos: 0 };
    }
    let secs = counter_value.0 / frequency;
    let sub_second = counter_value.0 % frequency;
    proof {
        assert((sub_second as int) * 1_000_000_000 <= u64::MAX * 1_000_000_000) by (nonlinear_arith)
            requires
                0 <= sub_second <= u64::MAX,
        ;
    }
    let nanos = (sub_second as u128) * (NANOSEC_PER_SEC as u128) / (frequency as u128);
    proof {
        let s = sub_second as int;
        let f = frequency as int;
        assert(s < f);
        assert(s * 1_000_000_000 < f * 1_000_000_000) by (nonlinear_arith)
            requires
                s < f,
                0 <= s,
        ;
        assert(s * 1_000_000_000 / f < 1_000_000_000) by (nonlinear_arith)
            requires
                s * 1_000_000_000 < f * 1_000_000_000,
                0 <= s,
                f > 0,
        ;
    }
    Duration { secs, nanos: nanos as u32 }
}

/// The span of one tick of a counter running at `frequency`.
pub fn resolution(frequency: u64) -> (r: Duration)
    requires
        frequency > 0,
    ensures
        r == counter_duration(1, frequency),
{
    counter_value_to_duration(GenericTimerCounterValue(1), frequency)
}

/// The time since the counter started, given its current value.
pub fn uptime(counter: u64, frequency: u64) -> (r: Duration)
    requires
        frequency > 0,
    ensures
        r == counter_duration(counter, frequency),
{
    counter_value_to_duration(GenericTimerCounterValue(counter), frequency)
}

/// The counter value at which a wait of `duration` that starts at counter
/// value `now` ends, or `None` when it lies beyond the counter's range.
pub fn spin_for(now: u64, duration: Duration, frequency: u64) -> (r: Option<u64>)
    requires
        duration.nanos < NANOSEC_PER_SEC,
    ensures
        now + duration_ticks(duration, frequency) <= u64::MAX ==> r == Some(
            (now + duration_ticks(duration, frequency)) as u64,
        ),
        now + duration_ticks(duration, frequency) > u64::MAX ==> r is None,
{
    proof {
        let s = duration.secs as int;
        let f = frequency as int;
        let n = duration.nanos as int;
        assert(s * f <= u64::MAX * u64::MAX) by (nonlinear_arith)
            requires
                0 <= s <= u64::MAX,
                0 <= f <= u64::MAX,
        ;
        assert(n * f <= u64::MAX * u64::MAX) by (nonlinear_arith)
            requires
                0 <= n <= u64::MAX,
                0 <= f <= u64::MAX,
        ;
        assert(n * f / 1_000_000_000 <= f) by (nonlinear_arith)
            requires
                0 <= n < 1_000_000_000,
                0 <= f,
        ;
        assert(u64::MAX * u64::MAX + u64::MAX + u64::MAX <= u128::MAX);
    }
    let whole = (duration.secs as u128) * (frequency as u128);
    let part = (duration.nanos as u128) * (frequency as u128) / (NANOSEC_PER_SEC as u128);
    let target = (now as u128) + whole + part;
    if target > u64::MAX as u128 {
        None
    } else {
        Some(target as u64)
    }
}

/// Per-core access to the architectural timer.
#[derive(Clone, Copy, Debug, PartialEq, Eq, Structural)]
pub struct TimeManager;

/// The time manager of the calling core; all cores' managers are alike.
pub fn time_manager() -> (r: TimeManager)
    ensures
        r == TimeManager,
{
    TimeManager::new()
}

impl TimeManager {
    pub fn new() -> (r: Self)
        ensures
            r == TimeManager,
    {
        TimeManager
    }

    /// The span of one tick of the counter, which runs at `frequency`.
    pub fn resolution(&self, frequency: u64) -> (r: Duration)
        requires
            frequency > 0,
        ensures
            r == counter_duration(1, frequency),
    {
        resolution(frequency)
    }

    /// The time since boot, given the counter's value and frequency.
    pub fn uptime(&self, counter: u64, frequency: u64) -> (r: Duration)
        requires
            frequency > 0,
        ensures
            r == counter_duration(counter, frequency),
    {
        uptime(counter, frequency)
    }

    /// The counter value at which a wait of `duration` from `now` ends.
    pub fn spin_for(&self, now: u64, duration: Duration, frequency: u64) -> (r: Option<u64>)
        requires
            duration.nanos < NANOSEC_PER_SEC,
        ensures
            now + duration_ticks(duration, frequency) <= u64::MAX ==> r == Some(
                (now + duration_ticks(duration, frequency)) as u64,
            ),
            now + duration_ticks(duration, frequency) > u64::MAX ==> r is None,
    {
        spin_for(now, duration, frequency)
    }
}

} // verus!
