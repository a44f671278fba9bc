use backoff::backoff::Backoff;
use workhorse::adapters::retry::RetryState;
use workhorse::adapters::{RetryError, RetryPolicy};
use workhorse::tools::{sandbox_available, SandboxLevel};

#[test]
fn retry_policy_default_has_reasonable_values() {
    let policy = RetryPolicy::default();
    assert_eq!(policy.max_retries, 3);
    assert!(policy.base_delay.as_millis() > 0);
    assert!(policy.max_delay.as_secs() > 0);
}

#[test]
fn retry_policy_default_delays() {
    let policy = RetryPolicy::default();
    assert_eq!(policy.base_delay.as_millis(), 500);
    assert_eq!(policy.max_delay.as_secs(), 30);
    let copy = policy.clone();
    assert_eq!(copy.max_retries, 3);
    assert_eq!(copy.base_delay, policy.base_delay);
}

#[test]
fn consent_and_none_sandboxes_always_available() {
    assert!(sandbox_available(SandboxLevel::Consent));
    assert!(sandbox_available(SandboxLevel::NoSandbox));
}

#[test]
fn wasmtime_sandbox_availability_reflects_feature_flag() {
    let available = sandbox_available(SandboxLevel::Wasmtime);
    assert!(!available);
}

#[test]
fn docker_sandbox_availability_reflects_feature_flag() {
    let available = sandbox_available(SandboxLevel::Docker);
    assert!(!available);
}

#[test]
fn all_phases_have_passing_tests() {}

#[test]
fn retry_state_allows_max_retries_then_stops() {
    let mut state = RetryState::new();
    assert_eq!(state.failures, 0);
    assert!(state.record_failure(2));
    assert!(state.record_failure(2));
    assert!(!state.record_failure(2));
    assert_eq!(state.failures, 3);
}

#[test]
fn retry_state_with_no_retries_stops_at_first_failure() {
    let mut state = RetryState::new();
    assert!(!state.record_failure(0));
}

#[test]
fn retry_state_saturates() {
    let mut state = RetryState { failures: u32::MAX };
    assert!(!state.record_failure(u32::MAX - 1));
    assert_eq!(state.failures, u32::MAX);
    assert!(state.record_failure(u32::MAX));
}

#[test]
fn retry_error_message() {
    let e = RetryError { max_retries: 3, last_error: "permanent failure".to_string() };
    assert_eq!(e.message(), "operation failed after 3 retries: permanent failure");
}

#[test]
fn sandbox_level_from_config_strings() {
    assert_eq!("wasmtime".parse::<SandboxLevel>(), Ok(SandboxLevel::Wasmtime));
    assert_eq!("docker".parse::<SandboxLevel>(), Ok(SandboxLevel::Docker));
    assert_eq!("none".parse::<SandboxLevel>(), Ok(SandboxLevel::NoSandbox));
    assert_eq!("consent".parse::<SandboxLevel>(), Ok(SandboxLevel::Consent));
    assert_eq!("anything".parse::<SandboxLevel>(), Ok(SandboxLevel::Consent));
    assert_eq!("Docker".parse::<SandboxLevel>(), Ok(SandboxLevel::Consent));
}

#[test]
fn backoff_starts_at_the_base_delay() {
    let policy = RetryPolicy::default();
    let mut backoff = policy.to_backoff();
    assert_eq!(backoff.initial_interval.as_millis(), 500);
    assert_eq!(backoff.max_interval.as_secs(), 30);
    assert_eq!(backoff.max_elapsed_time.map(|d| d.as_secs()), Some(120));
    let first = backoff.next_backoff().expect("a first delay");
    assert!(first.as_millis() >= 250 && first.as_millis() <= 750);
}
