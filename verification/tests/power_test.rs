use std::sync::atomic::{AtomicUsize, Ordering};
use std::sync::Arc;

use wsl_relay::config::AppConfig;
use wsl_relay::error::BackendError;
use wsl_relay::power::manager::{clamp_ttl, MAX_TTL_NANOS, NANOS_PER_SEC};
use wsl_relay::power::{
    PowerBackend, PowerInhibitManager, PowerRequestHandle, StubPowerBackend, DEFAULT_TTL_SECS,
    MAX_TTL_SECS, POWER_REQUEST_REASON,
};
use wsl_relay::server::routes::power::{
    default_ttl_seconds, delete_inhibit, get_inhibit, inhibit_request_body, post_inhibit,
    InhibitStatus,
};

const SEC: u64 = NANOS_PER_SEC;

/// Test double that counts backend calls so tests can assert how many
/// OS-level power requests were created and cleared.
struct CountingBackend {
    creates: Arc<AtomicUsize>,
    clears: Arc<AtomicUsize>,
}

struct CountingHandle {
    clears: Arc<AtomicUsize>,
}

impl PowerRequestHandle for CountingHandle {
    fn clear(&mut self) -> Result<(), BackendError> {
        self.clears.fetch_add(1, Ordering::SeqCst);
        Ok(())
    }
}

impl PowerBackend for CountingBackend {
    type Handle = CountingHandle;

    fn create_request(&self, reason: &str) -> Result<CountingHandle, BackendError> {
        assert_eq!(reason, POWER_REQUEST_REASON);
        self.creates.fetch_add(1, Ordering::SeqCst);
        Ok(CountingHandle { clears: self.clears.clone() })
    }
}

struct FailingPowerBackend;

impl PowerBackend for FailingPowerBackend {
    type Handle = CountingHandle;

    fn create_request(&self, _reason: &str) -> Result<CountingHandle, BackendError> {
        Err(BackendError::new("power request creation failed"))
    }
}

/// Creates requests fine, but clearing them fails.
struct FailingClearBackend;

struct FailingClearHandle;

impl PowerRequestHandle for FailingClearHandle {
    fn clear(&mut self) -> Result<(), BackendError> {
        Err(BackendError::new("power request clear failed"))
    }
}

impl PowerBackend for FailingClearBackend {
    type Handle = FailingClearHandle;

    fn create_request(&self, _reason: &str) -> Result<FailingClearHandle, BackendError> {
        Ok(FailingClearHandle)
    }
}

fn counting_manager() -> (PowerInhibitManager<CountingBackend>, Arc<AtomicUsize>, Arc<AtomicUsize>) {
    let creates = Arc::new(AtomicUsize::new(0));
    let clears = Arc::new(AtomicUsize::new(0));
    let manager = PowerInhibitManager::new(CountingBackend {
        creates: creates.clone(),
        clears: clears.clone(),
    });
    (manager, creates, clears)
}

/// What an expiry timer does when it fires at `now`: it only ever expires.
fn fire_timer<B: PowerBackend>(manager: &mut PowerInhibitManager<B>, now: u64) {
    let _ = manager.expire(now);
}

fn config_with(ops: &[&str]) -> AppConfig {
    AppConfig { port: 9400, enabled_operations: ops.iter().map(|s| s.to_string()).collect() }
}

// --- Backend unit tests ---

#[test]
fn stub_backend_create_request_returns_ok_handle() {
    let mut handle = StubPowerBackend.create_request("test").unwrap();
    assert!(handle.clear().is_ok());
}

#[test]
fn stub_handle_clear_is_idempotent() {
    let mut handle = StubPowerBackend.create_request("test").unwrap();
    assert!(handle.clear().is_ok());
    assert!(handle.clear().is_ok());
}

// --- Manager unit tests (time is passed in, in nanoseconds) ---

#[test]
fn remaining_is_none_before_acquire() {
    let (manager, _, _) = counting_manager();
    assert!(manager.remaining(0).is_none());
}

#[test]
fn acquire_creates_one_backend_request_and_reports_remaining() {
    let (mut manager, creates, _) = counting_manager();
    let ttl = manager.acquire_or_renew(0, 10 * SEC).unwrap();
    assert_eq!(ttl, 10 * SEC);
    assert_eq!(creates.load(Ordering::SeqCst), 1);
    assert_eq!(manager.remaining(0), Some(10 * SEC));
}

#[test]
fn renew_reuses_existing_handle_without_new_backend_call() {
    let (mut manager, creates, _) = counting_manager();
    manager.acquire_or_renew(0, 10 * SEC).unwrap();
    manager.acquire_or_renew(0, 10 * SEC).unwrap();
    assert_eq!(creates.load(Ordering::SeqCst), 1);
}

#[test]
fn ttl_is_clamped_to_max() {
    let (mut manager, _, _) = counting_manager();
    let ttl = manager.acquire_or_renew(0, (MAX_TTL_SECS + 1) * SEC).unwrap();
    assert_eq!(ttl, MAX_TTL_SECS * SEC);
    assert_eq!(clamp_ttl(u64::MAX), MAX_TTL_NANOS);
    assert_eq!(clamp_ttl(5), 5);
}

#[test]
fn expires_automatically_after_ttl_without_further_calls() {
    let (mut manager, _, clears) = counting_manager();
    manager.acquire_or_renew(0, 5 * SEC).unwrap();
    let deadline = manager.deadline().unwrap();
    assert_eq!(deadline, 5 * SEC);
    fire_timer(&mut manager, deadline);
    assert_eq!(clears.load(Ordering::SeqCst), 1);
    assert!(manager.remaining(6 * SEC).is_none());
}

#[test]
fn renewal_extends_deadline_and_old_timer_is_noop() {
    let (mut manager, _, clears) = counting_manager();
    manager.acquire_or_renew(0, 10 * SEC).unwrap();
    let first_deadline = manager.deadline().unwrap();
    manager.acquire_or_renew(6 * SEC, 10 * SEC).unwrap();
    // The first timer fires past the first deadline (t=10) but before the renewed one (t=16).
    fire_timer(&mut manager, first_deadline);
    assert_eq!(clears.load(Ordering::SeqCst), 0);
    assert!(manager.remaining(12 * SEC).is_some());
    // Past the renewed deadline: cleared exactly once, not twice.
    fire_timer(&mut manager, 17 * SEC);
    fire_timer(&mut manager, 17 * SEC);
    assert_eq!(clears.load(Ordering::SeqCst), 1);
    assert!(manager.remaining(17 * SEC).is_none());
}

#[test]
fn release_clears_immediately_and_pending_timer_is_noop() {
    let (mut manager, _, clears) = counting_manager();
    manager.acquire_or_renew(0, 10 * SEC).unwrap();
    assert!(manager.release().is_some());
    assert_eq!(clears.load(Ordering::SeqCst), 1);
    assert!(manager.remaining(0).is_none());
    fire_timer(&mut manager, 11 * SEC);
    assert_eq!(clears.load(Ordering::SeqCst), 1);
}

#[test]
fn release_without_acquire_is_a_noop() {
    let (mut manager, _, clears) = counting_manager();
    assert!(manager.release().is_none());
    assert_eq!(clears.load(Ordering::SeqCst), 0);
}

#[test]
fn acquire_after_expiry_creates_a_new_backend_request() {
    let (mut manager, creates, _) = counting_manager();
    manager.acquire_or_renew(0, 5 * SEC).unwrap();
    fire_timer(&mut manager, 6 * SEC);
    manager.acquire_or_renew(6 * SEC, 5 * SEC).unwrap();
    assert_eq!(creates.load(Ordering::SeqCst), 2);
    assert!(manager.remaining(6 * SEC).is_some());
}

#[test]
fn acquire_after_release_creates_a_new_backend_request() {
    let (mut manager, creates, _) = counting_manager();
    manager.acquire_or_renew(0, 10 * SEC).unwrap();
    manager.release();
    manager.acquire_or_renew(0, 10 * SEC).unwrap();
    assert_eq!(creates.load(Ordering::SeqCst), 2);
    assert!(manager.remaining(0).is_some());
}

#[test]
fn acquire_propagates_backend_failure() {
    let mut manager = PowerInhibitManager::new(FailingPowerBackend);
    let err = manager.acquire_or_renew(0, 10 * SEC).unwrap_err();
    assert_eq!(err.message, "power request creation failed");
    assert!(manager.remaining(0).is_none());
    assert!(manager.deadline().is_none());
}

#[test]
fn failed_acquire_asks_the_backend_again_next_time() {
    let mut manager = PowerInhibitManager::new(FailingPowerBackend);
    assert!(manager.acquire_or_renew(0, 10 * SEC).is_err());
    assert!(manager.acquire_or_renew(1, 10 * SEC).is_err());
    assert!(manager.deadline().is_none());
}

#[test]
fn on_created_holds_a_granted_handle_until_the_clamped_deadline() {
    let (mut manager, _, clears) = counting_manager();
    let handle = CountingHandle { clears: clears.clone() };
    assert_eq!(manager.on_created(Ok(handle), 7, MAX_TTL_NANOS + 1).ok(), Some(MAX_TTL_NANOS));
    assert_eq!(manager.deadline(), Some(7 + MAX_TTL_NANOS));
    assert_eq!(manager.release().map(|r| r.is_ok()), Some(true));
    assert_eq!(clears.load(Ordering::SeqCst), 1);
}

#[test]
fn on_created_passes_a_refusal_on_and_holds_nothing() {
    let (mut manager, creates, _) = counting_manager();
    let err = manager.on_created(Err(BackendError::new("refused")), 0, 10 * SEC).unwrap_err();
    assert_eq!(err.message, "refused");
    assert!(manager.deadline().is_none());
    // the next acquire asks the backend
    manager.acquire_or_renew(0, 10 * SEC).unwrap();
    assert_eq!(creates.load(Ordering::SeqCst), 1);
}

#[test]
fn remaining_never_exceeds_the_maximum_ttl() {
    let (mut manager, _, _) = counting_manager();
    manager.acquire_or_renew(100, u64::MAX - 100 - MAX_TTL_NANOS).unwrap();
    assert_eq!(manager.remaining(100), Some(MAX_TTL_NANOS));
    assert_eq!(manager.remaining(101), Some(MAX_TTL_NANOS - 1));
}

#[test]
fn slot_past_deadline_counts_as_inactive_before_expiry_runs() {
    let (mut manager, _, clears) = counting_manager();
    manager.acquire_or_renew(0, 5 * SEC).unwrap();
    assert_eq!(manager.remaining(5 * SEC - 1), Some(1));
    assert!(manager.remaining(5 * SEC).is_none());
    assert_eq!(clears.load(Ordering::SeqCst), 0);
}

#[test]
fn expire_reports_clear_failure_and_empties_slot() {
    let mut manager = PowerInhibitManager::new(FailingClearBackend);
    manager.acquire_or_renew(0, SEC).unwrap();
    let outcome = manager.expire(SEC).unwrap();
    assert_eq!(outcome.unwrap_err().message, "power request clear failed");
    assert!(manager.deadline().is_none());
}

// --- API decisions ---

#[test]
fn post_inhibit_returns_200_with_default_ttl() {
    let mut manager = PowerInhibitManager::new(StubPowerBackend);
    let granted = post_inhibit(&AppConfig::default(), &mut manager, 0, Ok(default_ttl_seconds()));
    assert_eq!(granted.ok(), Some(DEFAULT_TTL_SECS));
}

#[test]
fn post_inhibit_accepts_custom_ttl() {
    let mut manager = PowerInhibitManager::new(StubPowerBackend);
    assert_eq!(post_inhibit(&AppConfig::default(), &mut manager, 0, Ok(42)).ok(), Some(42));
}

#[test]
fn post_inhibit_accepts_minimum_ttl() {
    let mut manager = PowerInhibitManager::new(StubPowerBackend);
    assert_eq!(post_inhibit(&AppConfig::default(), &mut manager, 0, Ok(1)).ok(), Some(1));
}

#[test]
fn post_inhibit_accepts_max_ttl_unclamped() {
    let mut manager = PowerInhibitManager::new(StubPowerBackend);
    assert_eq!(
        post_inhibit(&AppConfig::default(), &mut manager, 0, Ok(MAX_TTL_SECS)).ok(),
        Some(MAX_TTL_SECS)
    );
}

#[test]
fn post_inhibit_clamps_oversized_ttl() {
    let mut manager = PowerInhibitManager::new(StubPowerBackend);
    assert_eq!(
        post_inhibit(&AppConfig::default(), &mut manager, 0, Ok(999999)).ok(),
        Some(MAX_TTL_SECS)
    );
    assert_eq!(
        post_inhibit(&AppConfig::default(), &mut manager, 0, Ok(u64::MAX)).ok(),
        Some(MAX_TTL_SECS)
    );
}

#[test]
fn post_inhibit_rejects_zero_ttl() {
    let mut manager = PowerInhibitManager::new(StubPowerBackend);
    let err = post_inhibit(&AppConfig::default(), &mut manager, 0, Ok(0)).unwrap_err();
    assert_eq!(err.status, 400);
    assert_eq!(err.message, "ttl_seconds must be at least 1");
    assert!(manager.deadline().is_none());
}

#[test]
fn post_inhibit_reports_unparsable_body() {
    let mut manager = PowerInhibitManager::new(StubPowerBackend);
    let err = post_inhibit(&AppConfig::default(), &mut manager, 0, Err("expected value".to_string()))
        .unwrap_err();
    assert_eq!(err.status, 400);
    assert_eq!(err.message, "invalid request body: expected value");
}

#[test]
fn empty_inhibit_body_means_defaults() {
    assert_eq!(inhibit_request_body(b""), b"{}".to_vec());
    assert_eq!(inhibit_request_body(b"{\"ttl_seconds\":5}"), b"{\"ttl_seconds\":5}".to_vec());
}

#[test]
fn get_inhibit_reports_inactive_initially() {
    let manager = PowerInhibitManager::new(StubPowerBackend);
    let status = get_inhibit(&AppConfig::default(), &manager, 0).ok().unwrap();
    assert_eq!(status, InhibitStatus { active: false, remaining_seconds: None });
}

#[test]
fn get_inhibit_reports_active_after_post() {
    let mut manager = PowerInhibitManager::new(StubPowerBackend);
    post_inhibit(&AppConfig::default(), &mut manager, 0, Ok(60)).ok().unwrap();
    let status = get_inhibit(&AppConfig::default(), &manager, SEC / 2).ok().unwrap();
    assert!(status.active);
    let remaining = status.remaining_seconds.unwrap();
    assert!(remaining > 0 && remaining <= 60);
    assert_eq!(remaining, 59);
}

#[test]
fn delete_inhibit_releases_and_get_reports_inactive() {
    let mut manager = PowerInhibitManager::new(StubPowerBackend);
    post_inhibit(&AppConfig::default(), &mut manager, 0, Ok(default_ttl_seconds())).ok().unwrap();
    let deleted = delete_inhibit(&AppConfig::default(), &mut manager);
    assert!(matches!(deleted, Ok(None)));
    let status = get_inhibit(&AppConfig::default(), &manager, 0).ok().unwrap();
    assert!(!status.active);
}

#[test]
fn delete_inhibit_when_inactive_returns_200() {
    let mut manager = PowerInhibitManager::new(StubPowerBackend);
    assert!(matches!(delete_inhibit(&AppConfig::default(), &mut manager), Ok(None)));
}

#[test]
fn inhibit_expires_after_ttl_end_to_end() {
    let (mut manager, _, clears) = counting_manager();
    post_inhibit(&AppConfig::default(), &mut manager, 0, Ok(5)).ok().unwrap();
    fire_timer(&mut manager, 6 * SEC);
    assert_eq!(clears.load(Ordering::SeqCst), 1);
    let status = get_inhibit(&AppConfig::default(), &manager, 6 * SEC).ok().unwrap();
    assert!(!status.active);
}

#[test]
fn power_endpoints_return_403_when_disabled() {
    let config = config_with(&["health"]);
    let mut manager = PowerInhibitManager::new(StubPowerBackend);
    let post = post_inhibit(&config, &mut manager, 0, Ok(10)).unwrap_err();
    assert_eq!((post.status, post.message.as_str()), (403, "power operation is disabled"));
    let get = get_inhibit(&config, &manager, 0).unwrap_err();
    assert_eq!(get.status, 403);
    let delete = delete_inhibit(&config, &mut manager).unwrap_err();
    assert_eq!(delete.status, 403);
    assert!(manager.deadline().is_none());
}

#[test]
fn delete_inhibit_returns_200_even_when_clear_fails() {
    let mut manager = PowerInhibitManager::new(FailingClearBackend);
    post_inhibit(&AppConfig::default(), &mut manager, 0, Ok(default_ttl_seconds())).ok().unwrap();
    let deleted = delete_inhibit(&AppConfig::default(), &mut manager).ok().unwrap();
    assert_eq!(deleted.unwrap().message, "power request clear failed");
    let status = get_inhibit(&AppConfig::default(), &manager, 0).ok().unwrap();
    assert!(!status.active);
}

#[test]
fn post_inhibit_returns_500_when_backend_fails() {
    let mut manager = PowerInhibitManager::new(FailingPowerBackend);
    let err = post_inhibit(&AppConfig::default(), &mut manager, 0, Ok(default_ttl_seconds()))
        .unwrap_err();
    assert_eq!(err.status, 500);
    assert_eq!(err.message, "power inhibit failed");
}
