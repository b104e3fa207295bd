use myos_sched::time::{MonotonicClock, TimeMeasure, Timer, TimerSource};

#[test]
fn measures_convert_between_units() {
    assert_eq!(TimeMeasure::from_micros(1234).as_micros(), 1234);
    assert_eq!(TimeMeasure::from_millis(5).as_micros(), 5000);
    assert_eq!(TimeMeasure::from_secs(3).as_micros(), 3_000_000);
    assert_eq!(TimeMeasure::from_micros(2_500_000).as_millis(), 2500);
    assert_eq!(TimeMeasure::from_micros(2_500_000).as_secs(), 2);
    assert_eq!(TimeMeasure(-1500).as_millis(), -1);
    assert_eq!(TimeMeasure(-2_500_000).as_secs(), -2);
}

#[test]
fn sentinels_are_recognised() {
    assert!(TimeMeasure::null().is_null());
    assert!(!TimeMeasure::null().is_forever());
    assert!(TimeMeasure::forever().is_forever());
    assert!(!TimeMeasure(1).is_null());
    assert_eq!(TimeMeasure::forever().as_micros(), i64::MAX);
}

#[test]
fn timer_from_millis_elapses_after_its_duration() {
    let t = 1_000_000i64;
    let clock = MonotonicClock::at(t);
    let timer = Timer::new(&clock, TimeMeasure::from_millis(5));
    assert!(timer.until(&MonotonicClock::at(t + 4_000)));
    assert!(!timer.until(&MonotonicClock::at(t + 6_000)));
}

#[test]
fn null_and_forever_deadlines() {
    let clock = MonotonicClock::at(500);
    assert!(!Timer::null().until(&clock));
    let never = Timer::new(&clock, TimeMeasure::forever());
    assert!(never.until(&MonotonicClock::at(i64::MAX - 1)));
    let none = Timer::new(&clock, TimeMeasure::null());
    assert!(!none.until(&clock));
}

#[test]
fn clock_creates_and_compares_deadlines() {
    let mut clock = MonotonicClock::new();
    assert_eq!(clock.micros(), 0);
    clock.advance(250);
    assert_eq!(clock.micros(), 250);
    let d = clock.create(TimeMeasure(100));
    assert_eq!(d, TimeMeasure(350));
    assert!(clock.until(d));
    assert_eq!(clock.diff(d), 100);
    clock.advance(200);
    assert!(!clock.until(d));
    assert_eq!(clock.diff(d), -100);
    clock.advance(i64::MAX);
    assert_eq!(clock.micros(), i64::MAX);
}

#[test]
fn deadline_saturates_to_forever() {
    let clock = MonotonicClock::at(10);
    assert!(clock.create(TimeMeasure(i64::MAX - 5)).is_forever());
}
