use screen_server::{Duration, ExponentialBackoff};

#[test]
fn reports_error_mode_correctly() {
    let mut eb = ExponentialBackoff::new(
        Duration::from_secs(10),
        Duration::from_secs(1),
        Duration::from_secs(20),
    );
    assert!(!eb.get_is_error());
    eb.set_error();
    assert!(eb.get_is_error());
    eb.set_success();
    assert!(!eb.get_is_error());
}

#[test]
fn first_duration_is_normal() {
    let eb = ExponentialBackoff::new(
        Duration::from_secs(10),
        Duration::from_secs(1),
        Duration::from_secs(20),
    );
    assert_eq!(eb.get_current_duration(), Duration::from_secs(10));
}

#[test]
fn stays_normal_after_success() {
    let mut eb = ExponentialBackoff::new(
        Duration::from_secs(10),
        Duration::from_secs(1),
        Duration::from_secs(20),
    );
    eb.set_success();
    assert_eq!(eb.get_current_duration(), Duration::from_secs(10));
}

#[test]
fn moves_to_error_mode_on_failure() {
    let mut eb = ExponentialBackoff::new(
        Duration::from_secs(10),
        Duration::from_secs(1),
        Duration::from_secs(20),
    );
    eb.set_error();
    assert_eq!(eb.get_current_duration(), Duration::from_secs(1));
}

#[test]
fn performs_exp_backoff() {
    let mut eb = ExponentialBackoff::new(
        Duration::from_secs(10),
        Duration::from_secs(1),
        Duration::from_secs(20),
    );
    eb.set_error();
    eb.set_error();
    assert_eq!(eb.get_current_duration(), Duration::from_secs(2));
}

#[test]
fn stays_at_max_error_duration() {
    let mut eb = ExponentialBackoff::new(
        Duration::from_secs(10),
        Duration::from_secs(1),
        Duration::from_secs(20),
    );
    eb.set_error();
    assert_eq!(eb.get_current_duration(), Duration::from_secs(1));
    eb.set_error();
    assert_eq!(eb.get_current_duration(), Duration::from_secs(2));
    eb.set_error();
    assert_eq!(eb.get_current_duration(), Duration::from_secs(4));
    eb.set_error();
    assert_eq!(eb.get_current_duration(), Duration::from_secs(8));
    eb.set_error();
    assert_eq!(eb.get_current_duration(), Duration::from_secs(16));
    eb.set_error();
    assert_eq!(eb.get_current_duration(), Duration::from_secs(20)); // Not 32, we hit max
    eb.set_error();
    assert_eq!(eb.get_current_duration(), Duration::from_secs(20)); // Still at max
}

#[test]
fn resumes_normal_after_new_success() {
    let mut eb = ExponentialBackoff::new(
        Duration::from_secs(10),
        Duration::from_secs(1),
        Duration::from_secs(20),
    );
    eb.set_error();
    eb.set_error();
    eb.set_success();
    assert_eq!(eb.get_current_duration(), Duration::from_secs(10));
}

#[test]
fn doubling_never_exceeds_a_small_ceiling() {
    let mut eb = ExponentialBackoff::new(
        Duration::from_secs(10),
        Duration::from_secs(30),
        Duration::from_secs(20),
    );
    eb.set_error();
    assert_eq!(eb.get_current_duration(), Duration::from_secs(30));
    eb.set_error();
    assert_eq!(eb.get_current_duration(), Duration::from_secs(20));
}

#[test]
fn doubling_stays_capped_near_the_integer_limit() {
    let mut eb = ExponentialBackoff::new(
        Duration::from_secs(10),
        Duration::from_secs(u64::MAX / 2 + 1),
        Duration::from_secs(u64::MAX),
    );
    eb.set_error();
    eb.set_error();
    assert_eq!(eb.get_current_duration(), Duration::from_secs(u64::MAX));
    assert!(eb.get_is_error());
}
