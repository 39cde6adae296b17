use korangar::network::timer::{NetworkTimer, SECOND};

#[test]
fn ten_second_timer_over_twenty_five_seconds() {
    for step in [SECOND, SECOND / 2, 5 * SECOND, SECOND / 4, 2 * SECOND + SECOND / 2] {
        let mut timer = NetworkTimer::new(10 * SECOND);
        let mut elapsed = 0;
        let mut triggers = 0;
        while elapsed < 25 * SECOND {
            if timer.update(step) {
                triggers += 1;
            }
            elapsed += step;
        }
        assert_eq!(elapsed, 25 * SECOND);
        assert_eq!(triggers, 2);
        assert_eq!(timer.accumulator, 5 * SECOND);
    }
}

#[test]
fn rollover_takes_one_period_off() {
    let mut timer = NetworkTimer::new(4 * SECOND);
    assert!(!timer.update(4 * SECOND));
    assert_eq!(timer.accumulator, 4 * SECOND);
    assert!(timer.update(1));
    assert_eq!(timer.accumulator, 1);
    assert!(timer.update(11 * SECOND));
    assert_eq!(timer.accumulator, 7 * SECOND + 1);
    assert!(timer.update(0));
    assert_eq!(timer.accumulator, 3 * SECOND + 1);
    assert!(!timer.update(0));
    assert_eq!(timer.period, 4 * SECOND);
}

#[test]
fn time_beyond_the_count_is_lost() {
    let mut timer = NetworkTimer::new(10);
    assert!(timer.update(u64::MAX));
    assert_eq!(timer.accumulator, u64::MAX - 10);
    assert!(timer.update(u64::MAX));
    assert_eq!(timer.accumulator, u64::MAX - 10);
}
