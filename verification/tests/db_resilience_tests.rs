use api::db_resilience::{
    circuit_open_rejection, gate_request, queue_rejection, BreakerState, CircuitBreaker,
    Admission, DbQueueCounters, DbQueueError, Gate, WaitOutcome,
};
use std::time::{Duration, Instant};

fn spin_for(d: Duration) {
    let start = Instant::now();
    while start.elapsed() < d {}
}

#[test]
fn breaker_starts_closed() {
    let cb = CircuitBreaker::new(3, Duration::from_secs(10));
    assert_eq!(cb.state(), BreakerState::Closed);
    assert!(!cb.is_open());
}

#[test]
fn breaker_trips_after_threshold_failures() {
    let mut cb = CircuitBreaker::new(3, Duration::from_secs(10));
    cb.record_failure();
    assert_eq!(cb.state(), BreakerState::Closed);
    cb.record_failure();
    assert_eq!(cb.state(), BreakerState::Closed);
    cb.record_failure();
    assert_eq!(cb.state(), BreakerState::Open);
    assert!(cb.is_open());
}

#[test]
fn breaker_success_resets_failure_count() {
    let mut cb = CircuitBreaker::new(3, Duration::from_secs(10));
    cb.record_failure();
    cb.record_failure();
    cb.record_success();
    cb.record_failure();
    assert_eq!(cb.state(), BreakerState::Closed);
}

#[test]
fn breaker_does_not_transition_before_recovery_time() {
    let mut cb = CircuitBreaker::new(1, Duration::from_secs(9999));
    cb.record_failure();
    cb.check_recovery();
    assert_eq!(cb.state(), BreakerState::Open);
}

#[test]
fn breaker_transitions_to_half_open_after_recovery() {
    let mut cb = CircuitBreaker::new(1, Duration::from_millis(50));
    cb.record_failure();
    assert_eq!(cb.state(), BreakerState::Open);
    spin_for(Duration::from_millis(60));
    cb.check_recovery();
    assert_eq!(cb.state(), BreakerState::HalfOpen);
}

#[test]
fn breaker_closes_on_success_from_half_open() {
    let mut cb = CircuitBreaker::new(1, Duration::from_millis(50));
    cb.record_failure();
    spin_for(Duration::from_millis(60));
    cb.check_recovery();
    cb.record_success();
    assert_eq!(cb.state(), BreakerState::Closed);
}

#[test]
fn breaker_reopens_on_failure_from_half_open() {
    let mut cb = CircuitBreaker::new(1, Duration::from_millis(50));
    cb.record_failure();
    spin_for(Duration::from_millis(60));
    cb.check_recovery();
    cb.record_failure();
    assert_eq!(cb.state(), BreakerState::Open);
}

#[test]
fn breaker_recovery_after_known_elapsed_time() {
    let mut cb = CircuitBreaker::with_recovery_nanos(2, 1_000);
    cb.record_failure();
    cb.record_failure();
    assert_eq!(cb.state(), BreakerState::Open);
    cb.check_recovery_after(999, Instant::now());
    assert_eq!(cb.state(), BreakerState::Open);
    cb.check_recovery_after(1_000, Instant::now());
    assert_eq!(cb.state(), BreakerState::HalfOpen);
    assert_eq!(cb.consecutive_failures(), 0);
}

#[test]
fn breaker_zero_threshold_trips_on_first_failure() {
    let mut cb = CircuitBreaker::new(0, Duration::from_secs(1));
    cb.record_failure();
    assert_eq!(cb.state(), BreakerState::Open);
}

#[test]
fn gauge_values() {
    assert_eq!(BreakerState::Closed.to_gauge_value(), 0);
    assert_eq!(BreakerState::Open.to_gauge_value(), 1);
    assert_eq!(BreakerState::HalfOpen.to_gauge_value(), 2);
}

#[test]
fn queue_permits_acquired_and_released() {
    let mut q = DbQueueCounters::new(2, 10);
    assert_eq!(q.request_permit(), Ok(Admission::Granted));
    assert_eq!(q.request_permit(), Ok(Admission::Granted));
    assert_eq!(q.active_count(), 2);
    q.release_permit();
    assert_eq!(q.active_count(), 1);
    q.release_permit();
    assert_eq!(q.active_count(), 0);
}

#[test]
fn queue_rejects_when_full() {
    // one permit, no waiting allowed: the first request gets the permit,
    // the second is rejected at once
    let mut q = DbQueueCounters::new(1, 0);
    assert_eq!(q.request_permit(), Ok(Admission::Granted));
    assert!(q.is_queue_full());
    assert_eq!(q.request_permit(), Err(DbQueueError::QueueFull));
    assert_eq!((q.queued_count(), q.active_count()), (0, 1));
}

#[test]
fn queue_times_out_when_all_permits_held() {
    let mut q = DbQueueCounters::new(1, 100);
    assert_eq!(q.request_permit(), Ok(Admission::Granted));
    assert_eq!(q.request_permit(), Ok(Admission::MustWait));
    assert_eq!(q.queued_count(), 1);
    assert_eq!(q.finish_wait(WaitOutcome::TimedOut), Err(DbQueueError::Timeout));
    assert_eq!((q.queued_count(), q.active_count()), (0, 1));
    assert_eq!(q.request_permit(), Ok(Admission::MustWait));
    assert_eq!(q.finish_wait(WaitOutcome::Closed), Err(DbQueueError::SemaphoreClosed));
}

#[test]
fn queue_depth_gauge_tracks_waiters() {
    let mut q = DbQueueCounters::new(1, 100);
    assert_eq!(q.request_permit(), Ok(Admission::Granted));
    assert_eq!(q.request_permit(), Ok(Admission::MustWait));
    assert_eq!(q.queued_count(), 1);
    q.release_permit();
    q.finish_wait(WaitOutcome::Granted).expect("the waiter proceeds");
    assert_eq!((q.queued_count(), q.active_count()), (0, 1));
}

#[test]
fn health_paths_bypass_the_gate() {
    assert_eq!(gate_request("/health", true), Gate::Bypass);
    assert_eq!(gate_request("/health/ready", true), Gate::Bypass);
    assert_eq!(gate_request("/metrics", true), Gate::Bypass);
    assert_eq!(gate_request("/api/contracts", true), Gate::CircuitOpen);
    assert_eq!(gate_request("/api/contracts", false), Gate::NeedPermit);
    assert_eq!(gate_request("/healthz", false), Gate::NeedPermit);
}

#[test]
fn rejections_carry_codes_and_retry_hints() {
    let r = circuit_open_rejection();
    assert_eq!(r.code, "DATABASE_UNAVAILABLE");
    assert_eq!(r.retry_after_secs, Some(10));
    assert_eq!(queue_rejection(DbQueueError::QueueFull).retry_after_secs, Some(5));
    assert_eq!(queue_rejection(DbQueueError::Timeout).code, "QUEUE_TIMEOUT");
    assert_eq!(queue_rejection(DbQueueError::SemaphoreClosed).retry_after_secs, None);
    assert_eq!(DbQueueError::QueueFull.message(), "database request queue is full");
}

#[test]
fn breaker_takes_its_recovery_time_from_the_duration() {
    let mut cb = CircuitBreaker::new(1, Duration::from_nanos(0));
    cb.record_failure();
    assert_eq!(cb.state(), BreakerState::Open);
    cb.check_recovery();
    assert_eq!(cb.state(), BreakerState::HalfOpen);
    let mut slow = CircuitBreaker::new(1, Duration::from_secs(3600));
    slow.record_failure();
    slow.check_recovery();
    assert_eq!(slow.state(), BreakerState::Open);
}
