use rpi_kernel::time::{counter_value_to_duration, resolution, spin_for, time_manager, uptime, Duration, GenericTimerCounterValue, TimeManager};

const FREQ: u64 = 19_200_000;

#[test]
fn resolution_of_a_19_2_mhz_counter() {
    assert_eq!(resolution(FREQ), Duration { secs: 0, nanos: 52 });
    assert_eq!(TimeManager::new().resolution(FREQ), Duration { secs: 0, nanos: 52 });
}

#[test]
fn uptime_splits_seconds_and_nanoseconds() {
    assert_eq!(uptime(FREQ * 3 + FREQ / 2, FREQ), Duration { secs: 3, nanos: 500_000_000 });
    assert_eq!(time_manager().uptime(0, FREQ), Duration { secs: 0, nanos: 0 });
    assert_eq!(counter_value_to_duration(GenericTimerCounterValue(u64::MAX), 1_000_000_000), Duration { secs: 18_446_744_073, nanos: 709_551_615 });
}

#[test]
fn nanoseconds_stay_below_one_second_at_high_frequency() {
    let d = uptime(u64::MAX - 1, u64::MAX);
    assert_eq!(d.secs, 0);
    assert_eq!(d.nanos, 999_999_999);
}

#[test]
fn spin_target_adds_duration_in_ticks() {
    let d = Duration { secs: 1, nanos: 500_000_000 };
    assert_eq!(spin_for(1000, d, FREQ), Some(28_801_000));
    assert_eq!(time_manager().spin_for(1000, d, FREQ), Some(28_801_000));
    assert_eq!(spin_for(u64::MAX, Duration { secs: 1, nanos: 0 }, FREQ), None);
    assert_eq!(spin_for(u64::MAX, Duration { secs: 0, nanos: 0 }, FREQ), Some(u64::MAX));
}
