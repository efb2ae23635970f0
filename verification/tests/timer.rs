use invaders_2::timer::{Timer, MAX_MILLIS, NANOS_PER_MILLI};

fn ms(n: u64) -> u64 {
    n * NANOS_PER_MILLI
}

#[test]
fn from_millis_starts_full_and_unfired() {
    let timer = Timer::from_millis(500);
    assert_eq!(timer.duration, 500_000_000);
    assert_eq!(timer.time_left, 500_000_000);
    assert!(!timer.ready);
    assert_eq!(timer.duration_millis(), 500);
}

#[test]
fn from_millis_takes_the_largest_count() {
    let timer = Timer::from_millis(MAX_MILLIS);
    assert_eq!(timer.duration, 18_446_744_073_709_000_000);
    assert_eq!(timer.duration_millis(), MAX_MILLIS);
}

#[test]
fn update_takes_time_off() {
    let mut timer = Timer::from_millis(500);
    timer.update(ms(300));
    assert_eq!(timer.time_left, ms(200));
    assert_eq!(timer.duration, ms(500));
    assert!(!timer.ready);
}

#[test]
fn timer_fires_on_the_second_update() {
    let mut timer = Timer::from_millis(500);
    timer.update(ms(300));
    assert!(!timer.ready);
    timer.update(ms(300));
    assert!(timer.ready);
    assert_eq!(timer.time_left, 0);
}

#[test]
fn timer_does_not_fire_when_time_runs_out_exactly() {
    let mut timer = Timer::from_millis(500);
    timer.update(ms(500));
    assert!(!timer.ready);
    assert_eq!(timer.time_left, 0);
    timer.update(0);
    assert!(!timer.ready);
    timer.update(1);
    assert!(timer.ready);
}

#[test]
fn fired_timer_stays_as_it_is() {
    let mut timer = Timer::from_millis(1);
    timer.update(ms(2));
    assert!(timer.ready);
    let fired = timer;
    timer.update(ms(50));
    assert_eq!(timer, fired);
}

#[test]
fn reset_winds_back() {
    let mut timer = Timer::from_millis(500);
    timer.update(ms(600));
    assert!(timer.ready);
    timer.reset();
    assert!(!timer.ready);
    assert_eq!(timer.time_left, ms(500));
    assert_eq!(timer.duration, ms(500));
    assert_eq!(timer, Timer::from_millis(500));
}

#[test]
fn timer_fires_once_the_sum_of_updates_exceeds_it() {
    let mut timer = Timer::from_millis(75);
    let mut passed = 0;
    for _ in 0..75 {
        timer.update(ms(1));
        passed += ms(1);
        assert!(!timer.ready);
        assert_eq!(timer.time_left, ms(75) - passed);
    }
    timer.update(1);
    assert!(timer.ready);
}

#[test]
fn zero_millis_timer_needs_time_to_fire() {
    let mut timer = Timer::from_millis(0);
    assert!(!timer.ready);
    timer.update(0);
    assert!(!timer.ready);
    timer.update(1);
    assert!(timer.ready);
}
