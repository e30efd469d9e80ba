use jobq::sched::{backoff_ms, backoff_with, next_cron, pickup_jitter_ms, queue_lag_ms};

#[test]
fn backoff_bounds_at_first_and_tenth_attempt() {
    assert_eq!(backoff_with(0, -500), 500);
    assert_eq!(backoff_with(0, 0), 1_000);
    assert_eq!(backoff_with(0, 500), 1_500);
    assert_eq!(backoff_with(10, -500), 1_024_000 - 500);
    assert_eq!(backoff_with(10, 500), 1_024_000 + 500);
}

#[test]
fn backoff_doubles_per_attempt() {
    assert_eq!(backoff_with(1, 0), 2_000);
    assert_eq!(backoff_with(2, 0), 4_000);
    assert_eq!(backoff_with(9, 0), 512_000);
}

#[test]
fn backoff_negative_attempts_behave_like_zero() {
    assert_eq!(backoff_with(-3, 0), 1_000);
}

#[test]
fn sampled_backoff_stays_in_band() {
    for _ in 0..50 {
        let b = backoff_ms(0);
        assert!((500..=1500).contains(&b));
        let b10 = backoff_ms(10);
        assert!((1_024_000 - 500..=1_024_000 + 500).contains(&b10));
    }
}

#[test]
fn pickup_jitter_stays_in_band() {
    for _ in 0..50 {
        let j = pickup_jitter_ms();
        assert!((0..=1000).contains(&j));
    }
}

#[test]
fn next_cron_is_strictly_in_the_future() {
    // every five minutes, on the minute
    let expr = "0 */5 * * * *";
    let t = next_cron(expr, 0).unwrap();
    assert_eq!(t, 300_000);
    let t2 = next_cron(expr, 1_000).unwrap();
    assert_eq!(t2, 300_000);
    let t3 = next_cron(expr, 300_000).unwrap();
    assert_eq!(t3, 600_000);
    for now in [0i64, 123_456, 1_700_000_000_000] {
        let n = next_cron(expr, now).unwrap();
        assert!(n > now);
    }
}

#[test]
fn next_cron_rejects_a_bad_expression() {
    assert_eq!(next_cron("not a cron", 0), None);
    assert_eq!(next_cron("", 0), None);
}

#[test]
fn queue_lag_clamps_below_at_zero() {
    assert_eq!(queue_lag_ms(10_000, 4_000), 6_000);
    assert_eq!(queue_lag_ms(4_000, 10_000), 0);
    assert_eq!(queue_lag_ms(5_000, 5_000), 0);
}
