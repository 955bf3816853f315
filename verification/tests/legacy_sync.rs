use fedi3_core::retry::{retry_delay_ms, retryable_status, LEGACY_RETRY_MAX_MS};

#[test]
fn retry_delay_increases_and_caps() {
    let a = retry_delay_ms("home", 0);
    let b = retry_delay_ms("home", 1);
    let c = retry_delay_ms("home", 6);
    assert!(b > a);
    assert!(c <= LEGACY_RETRY_MAX_MS + 120);
}

#[test]
fn retryable_status_policy() {
    assert!(retryable_status(429));
    assert!(retryable_status(502));
    assert!(!retryable_status(400));
}
