use goal_extract::readiness::{wait_until_ready, ReadinessConfig, WaitStep, Waiter};

#[test]
fn ready_as_soon_as_a_sample_is_long_enough() {
    assert!(wait_until_ready(&vec![0, 10, 60], 50, 500, 20));
    assert!(wait_until_ready(&vec![50], 50, 500, 20));
    assert!(wait_until_ready(&vec![50], 50, 500, 0));
}

#[test]
fn not_ready_when_the_budget_is_spent() {
    assert!(!wait_until_ready(&vec![0; 21], 50, 500, 20));
    assert!(!wait_until_ready(&vec![0, 0, 0, 100], 50, 500, 2));
    assert!(wait_until_ready(&vec![0, 0, 100], 50, 500, 2));
    assert!(!wait_until_ready(&vec![49, 100], 50, 500, 0));
}

#[test]
fn not_ready_without_samples() {
    assert!(!wait_until_ready(&vec![], 50, 500, 20));
    assert!(!wait_until_ready(&vec![1, 2, 3], 50, 500, 20));
}

#[test]
fn waiter_counts_only_retries() {
    let config = ReadinessConfig { min_length: 50, poll_interval_ms: 500, max_attempts: 2 };
    let mut waiter = Waiter::new(config);
    assert_eq!(waiter.attempts, 0);
    assert_eq!(waiter.observe(10), WaitStep::Retry { delay_ms: 500 });
    assert_eq!(waiter.attempts, 1);
    assert_eq!(waiter.observe(49), WaitStep::Retry { delay_ms: 500 });
    assert_eq!(waiter.attempts, 2);
    assert_eq!(waiter.observe(49), WaitStep::GiveUp);
    assert_eq!(waiter.attempts, 2);
    assert_eq!(waiter.observe(50), WaitStep::Ready);
    assert_eq!(waiter.attempts, 2);
}

#[test]
fn default_waiter_matches_the_page() {
    let waiter = Waiter::with_defaults();
    assert_eq!(
        waiter.config,
        ReadinessConfig { min_length: 50, poll_interval_ms: 500, max_attempts: 20 }
    );
    assert_eq!(waiter.attempts, 0);
}

#[test]
fn default_waiter_gives_up_at_the_twenty_first_sample() {
    let mut waiter = Waiter::with_defaults();
    for _ in 0..20 {
        assert_eq!(waiter.observe(0), WaitStep::Retry { delay_ms: 500 });
    }
    assert_eq!(waiter.observe(0), WaitStep::GiveUp);
}
