use bff::middleware::circuit_breaker::{BreakerState, CircuitBreakerRegistry};
use bff::utils::time::Duration;

#[test]
fn opens_after_threshold() {
    let mut reg = CircuitBreakerRegistry::new();
    let threshold = 5;
    for _ in 0..threshold {
        reg.record_failure("up");
    }
    assert_eq!(reg.state_of("up"), BreakerState::Open);
    assert!(!reg.allow("up"));
    reg.record_success("up");
    assert_eq!(reg.state_of("up"), BreakerState::Closed);
}

#[test]
fn half_open_after_cool_down() {
    let mut reg = CircuitBreakerRegistry::new_with_config(2, Duration::from_secs(10));
    let t0 = Duration::from_secs(100);
    reg.record_failure_at("up", t0);
    assert_eq!(reg.state_of("up"), BreakerState::Closed);
    assert!(reg.allow_at("up", t0));
    reg.record_failure_at("up", t0);
    assert_eq!(reg.state_of("up"), BreakerState::Open);
    assert!(!reg.allow_at("up", Duration::from_secs(109)));
    assert!(reg.allow_at("up", Duration::from_secs(110)));
    assert_eq!(reg.state_of("up"), BreakerState::HalfOpen);
    // one failure while half-open reopens at once
    reg.record_failure_at("up", Duration::from_secs(111));
    assert_eq!(reg.state_of("up"), BreakerState::Open);
    assert!(!reg.allow_at("up", Duration::from_secs(120)));
    assert!(reg.allow_at("up", Duration::from_secs(121)));
    reg.record_success("up");
    assert_eq!(reg.state_of("up"), BreakerState::Closed);
}

#[test]
fn upstreams_are_independent() {
    let mut reg = CircuitBreakerRegistry::new_with_config(1, Duration::from_secs(30));
    reg.record_failure_at("a", Duration::from_secs(1));
    assert_eq!(reg.state_of("a"), BreakerState::Open);
    assert_eq!(reg.state_of("b"), BreakerState::Closed);
    assert!(reg.allow_at("b", Duration::from_secs(2)));
}

#[test]
fn route_threshold_zero_never_trips() {
    let mut reg = CircuitBreakerRegistry::new_with_config(2, Duration::from_secs(10));
    let t0 = Duration::from_secs(100);
    for _ in 0..10 {
        assert!(reg.allow_route_at("up", 0, t0));
        reg.record_route_failure_at("up", 0, t0);
    }
    assert_eq!(reg.state_of("up"), BreakerState::Closed);
    assert!(reg.allow_route("up", 0));
}

#[test]
fn route_threshold_opens_after_its_own_count() {
    let mut reg = CircuitBreakerRegistry::new_with_config(5, Duration::from_secs(10));
    let t0 = Duration::from_secs(100);
    reg.record_route_failure_at("up", 2, t0);
    assert_eq!(reg.state_of("up"), BreakerState::Closed);
    reg.record_route_failure_at("up", 2, t0);
    assert_eq!(reg.state_of("up"), BreakerState::Open);
    assert!(!reg.allow_route_at("up", 2, Duration::from_secs(105)));
    assert!(reg.allow_route_at("up", 2, Duration::from_secs(110)));
    assert_eq!(reg.state_of("up"), BreakerState::HalfOpen);
}
