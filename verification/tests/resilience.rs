use blinkstick_rs::transport::attempt_backoff_ms;
use blinkstick_rs::{remaining_sleep_ms, BlinkStick};

#[test]
fn the_schedule_grants_five_immediate_attempts_then_one_delayed() {
    for attempt in 0..5u32 {
        assert_eq!(attempt_backoff_ms(attempt), Some(0));
    }
    assert_eq!(attempt_backoff_ms(5), Some(10));
    assert_eq!(attempt_backoff_ms(6), None);
    assert_eq!(attempt_backoff_ms(7), None);
}

#[test]
fn five_failures_then_a_success_still_succeeds() {
    // Walks the retry schedule against a transport that fails its first five
    // transactions and succeeds on the sixth: the schedule still grants that
    // sixth attempt, so the send goes through.
    let outcomes = [false, false, false, false, false, true];
    let mut attempt: u32 = 0;
    let mut sent = false;
    while let Some(backoff) = attempt_backoff_ms(attempt) {
        if attempt == 5 {
            assert_eq!(backoff, 10);
        } else {
            assert_eq!(backoff, 0);
        }
        if outcomes[attempt as usize] {
            sent = true;
            break;
        }
        attempt = attempt + 1;
    }
    assert!(sent);
    assert_eq!(attempt, 5);
}

#[test]
fn six_failures_exhaust_the_schedule() {
    let outcomes = [false; 6];
    let mut attempt: u32 = 0;
    let mut sent = false;
    while let Some(_backoff) = attempt_backoff_ms(attempt) {
        if outcomes[attempt as usize] {
            sent = true;
            break;
        }
        attempt = attempt + 1;
    }
    assert!(!sent);
    assert_eq!(attempt, 6);
}

#[test]
fn an_overrun_step_sleeps_nothing_more() {
    assert_eq!(remaining_sleep_ms(10, 25), 0);
    assert_eq!(remaining_sleep_ms(10, 10), 0);
    assert_eq!(remaining_sleep_ms(25, 10), 15);
    assert_eq!(remaining_sleep_ms(40, 0), 40);
}

#[test]
fn random_colors_stay_inside_the_sampled_range() {
    for _ in 0..64 {
        let color = BlinkStick::get_random_color();
        assert!(color.r < 255);
        assert!(color.g < 255);
        assert!(color.b < 255);
    }
}
