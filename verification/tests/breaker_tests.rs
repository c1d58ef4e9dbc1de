use trip_engine::CircuitBreaker;

#[test]
fn breaker_trips_after_threshold_and_resets() {
    let mut b = CircuitBreaker::new(3);
    assert!(!b.should_pause());
    b.on_failure();
    assert!(!b.should_pause());
    b.on_failure();
    b.on_failure();
    assert!(b.should_pause());
    // the pause resets the count: consumption resumes
    assert!(!b.should_pause());
    assert_eq!(b.consecutive_failures, 0);
}

#[test]
fn success_resets_the_failure_count() {
    let mut b = CircuitBreaker::new(5);
    b.on_failure();
    b.on_failure();
    b.on_success();
    assert_eq!(b.consecutive_failures, 0);
    assert!(!b.should_pause());
}

#[test]
fn zero_threshold_always_pauses() {
    let mut b = CircuitBreaker::new(0);
    assert!(b.should_pause());
}
