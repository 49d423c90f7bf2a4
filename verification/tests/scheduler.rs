use zerotier_service::scheduler::{next_delay, NODE_BACKGROUND_TASKS_MAX_INTERVAL};

#[test]
fn max_interval_is_a_quarter_second() {
    assert_eq!(NODE_BACKGROUND_TASKS_MAX_INTERVAL, 250);
}

#[test]
fn delay_is_time_to_deadline_within_bounds() {
    assert_eq!(next_delay(1_000, 1_100), 100);
    assert_eq!(next_delay(1_000, 1_001), 1);
    assert_eq!(next_delay(1_000, 1_250), 250);
    assert_eq!(next_delay(-500, -400), 100);
}

#[test]
fn deadline_now_or_in_the_past_gives_one() {
    assert_eq!(next_delay(1_000, 1_000), 1);
    assert_eq!(next_delay(1_000, 999), 1);
    assert_eq!(next_delay(1_000, 0), 1);
    assert_eq!(next_delay(0, i64::MIN), 1);
    assert_eq!(next_delay(i64::MAX, i64::MIN), 1);
}

#[test]
fn deadline_far_ahead_gives_the_maximum() {
    assert_eq!(next_delay(1_000, 1_251), 250);
    assert_eq!(next_delay(1_000, 1_000_000), 250);
    assert_eq!(next_delay(0, i64::MAX), 250);
    assert_eq!(next_delay(i64::MIN, i64::MAX), 250);
    assert_eq!(next_delay(-1, i64::MAX), 250);
}

#[test]
fn delay_is_always_between_one_and_the_maximum() {
    let times: [i64; 9] = [i64::MIN, i64::MIN + 1, -251, -1, 0, 1, 250, i64::MAX - 1, i64::MAX];
    for now in times.iter() {
        for deadline in times.iter() {
            let d = next_delay(*now, *deadline);
            assert!(d >= 1 && d <= NODE_BACKGROUND_TASKS_MAX_INTERVAL);
        }
    }
}
