use vstd::prelude::*;

use crate::config::AppConfig;
use crate::error::BackendError;
use crate::power::backend::{PowerBackend, PowerRequestHandle, POWER_REQUEST_REASON};
use crate::power::manager::{
    InhibitView, after_acquire, after_release, after_renew, remaining_spec, PowerInhibitManager, DEFAULT_TTL_SECS, MAX_TTL_NANOS, MAX_TTL_SECS,
    NANOS_PER_SEC,
};
use super::{check_enabled, disabled_message, ApiError, STATUS_BAD_REQUEST, STATUS_FORBIDDEN,
    STATUS_INTERNAL_SERVER_ERROR};

verus! {

/// The TTL of an inhibit request that names none.
pub fn default_ttl_seconds() -> (r: u64)
    ensures
        r == DEFAULT_TTL_SECS,
{
    DEFAULT_TTL_SECS
}

/// The body to parse for `POST /api/v1/power/inhibit`: the body is optional,
/// and an empty one means "all defaults", that is `{}`.
pub fn inhibit_request_body(body: &[u8]) -> (r: Vec<u8>)
    ensures
        r@ == if body@.len() == 0 {
            seq![0x7Bu8, 0x7D]
        } else {
            body@
        },
{
    let mut out: Vec<u8> = Vec::new();
    if body.len() == 0 {
        out.push(0x7B);
        out.push(0x7D);
        assert(out@ =~= seq![0x7Bu8, 0x7D]);
    } else {
        out.extend_from_slice(body);
        assert(out@ =~= body@);
    }
    out
}

/// The TTL granted for a request of `ttl_seconds`, in whole seconds.
pub open spec fn granted_ttl_seconds(ttl_seconds: u64) -> u64 {
    if ttl_seconds <= MAX_TTL_SECS {
        ttl_seconds
    } else {
        MAX_TTL_SECS
    }
}

/// The message of a body that did not parse, given the parser's message.
pub open spec fn invalid_body_message(detail: Seq<char>) -> Seq<char> {
    "invalid request body: "@ + detail
}

/// The TTL, in nanoseconds, that the manager is asked for on a request of `ttl_seconds`.
pub open spec fn granted_ttl_nanos(ttl_seconds: u64) -> u64 {
    (granted_ttl_seconds(ttl_seconds) * NANOS_PER_SEC) as u64
}

/// `POST /api/v1/power/inhibit` at time `now` (nanoseconds), once the body has
/// been parsed into its `ttl_seconds` (or the parser's error message): starts
/// or renews the inhibit and answers the TTL granted, in seconds.
pub fn post_inhibit<B: PowerBackend>(
    config: &AppConfig,
    manager: &mut PowerInhibitManager<B>,
    now: u64,
    request: Result<u64, String>,
) -> (r: Result<u64, ApiError>)
    requires
        old(manager)@.wf(),
        now + MAX_TTL_NANOS <= u64::MAX,
    ensures
        !config.enabled_set().contains("power"@) ==> {
            &&& r matches Err(e) && e.status == STATUS_FORBIDDEN && e.message@ == disabled_message(
                "power"@,
            )
            &&& final(manager)@ == old(manager)@
        },
        config.enabled_set().contains("power"@) ==> match request {
            Err(detail) => {
                &&& r matches Err(e) && e.status == STATUS_BAD_REQUEST && e.message@
                    == invalid_body_message(detail@)
                &&& final(manager)@ == old(manager)@
            },
            Ok(ttl) => if ttl == 0 {
                &&& r matches Err(e) && e.status == STATUS_BAD_REQUEST && e.message@
                    == "ttl_seconds must be at least 1"@
                &&& final(manager)@ == old(manager)@
            } else {
                &&& old(manager)@.expires_at is Some ==> r == Ok::<u64, ApiError>(
                    granted_ttl_seconds(ttl),
                ) && final(manager)@ == after_renew(old(manager)@, now, granted_ttl_nanos(ttl))
                &&& old(manager)@.expires_at is None ==> exists|
                    created: Result<B::Handle, BackendError>,
                |
                    #[trigger] old(manager).backend().creates(POWER_REQUEST_REASON@, created)
                        && final(manager)@ == after_acquire(
                        old(manager)@,
                        now,
                        granted_ttl_nanos(ttl),
                        created,
                    ) && (created is Ok ==> r == Ok::<u64, ApiError>(granted_ttl_seconds(ttl)))
                        && (created is Err ==> (r matches Err(e) && e.status
                        == STATUS_INTERNAL_SERVER_ERROR && e.message@ == "power inhibit failed"@))
            },
        },
        final(manager)@.wf(),
        final(manager).backend() == old(manager).backend(),
        r matches Ok(granted) ==> granted <= 3600 && final(manager)@.expires_at == Some(
            (now + granted * 1_000_000_000) as u64,
        ),
{
    match check_enabled(config, "power") {
        Ok(()) => {},
        Err(e) => {
            return Err(e);
        },
    }
    let ttl_seconds = match request {
        Ok(ttl) => ttl,
        Err(detail) => {
            let mut message = String::from_str("invalid request body: ");
            message.append(detail.as_str());
            return Err(ApiError { status: STATUS_BAD_REQUEST, message });
        },
    };
    if ttl_seconds == 0 {
        return Err(
            ApiError {
                status: STATUS_BAD_REQUEST,
                message: String::from_str("ttl_seconds must be at least 1"),
            },
        );
    }
    // Clamping in seconds first keeps the conversion to nanoseconds in range;
    // the manager's own clamp then leaves the value as it is.
    let capped = if ttl_seconds <= MAX_TTL_SECS {
        ttl_seconds
    } else {
        MAX_TTL_SECS
    };
    let ttl_nanos = capped * NANOS_PER_SEC;
    match manager.acquire_or_renew(now, ttl_nanos) {
        Ok(granted) => Ok(granted / NANOS_PER_SEC),
        Err(_) => Err(
            ApiError {
                status: STATUS_INTERNAL_SERVER_ERROR,
                message: String::from_str("power inhibit failed"),
            },
        ),
    }
}

/// The state that `GET /api/v1/power/inhibit` reports.
#[derive(Debug, Clone, Copy, PartialEq, Eq, Structural)]
pub struct InhibitStatus {
    pub active: bool,
    /// Whole seconds until auto-release, when active.
    pub remaining_seconds: Option<u64>,
}

/// The status reported when `remaining` nanoseconds are left (or none).
pub open spec fn inhibit_status_spec(remaining: Option<u64>) -> InhibitStatus {
    InhibitStatus {
        active: remaining is Some,
        remaining_seconds: match remaining {
            Some(n) => Some((n / NANOS_PER_SEC) as u64),
            None => None,
        },
    }
}

/// `GET /api/v1/power/inhibit` at time `now`: whether an inhibit is active and
/// how many whole seconds it has left.
pub fn get_inhibit<B: PowerBackend>(config: &AppConfig, manager: &PowerInhibitManager<B>, now: u64) -> (r:
    Result<InhibitStatus, ApiError>)
    ensures
        !config.enabled_set().contains("power"@) ==> (r matches Err(e) && e.status
            == STATUS_FORBIDDEN && e.message@ == disabled_message("power"@)),
        config.enabled_set().contains("power"@) ==> r == Ok::<InhibitStatus, ApiError>(
            inhibit_status_spec(remaining_spec(manager@.expires_at, now)),
        ),
        r matches Ok(status) ==> (status.active <==> (manager@.expires_at matches Some(d) && now
            < d)),
        r matches Ok(status) ==> (status.remaining_seconds matches Some(left) ==> (
        manager@.expires_at matches Some(d) && left * 1_000_000_000 <= d - now && d - now < (left
            + 1) * 1_000_000_000)),
{
    match check_enabled(config, "power") {
        Ok(()) => {},
        Err(e) => {
            return Err(e);
        },
    }
    let remaining = manager.remaining(now);
    let status = match remaining {
        Some(n) => InhibitStatus { active: true, remaining_seconds: Some(n / NANOS_PER_SEC) },
        None => InhibitStatus { active: false, remaining_seconds: None },
    };
    Ok(status)
}

/// What is handed back for logging once clearing a request gave `outcome`:
/// the error, if there was one.
pub open spec fn clear_report(outcome: Result<(), BackendError>) -> Option<BackendError> {
    match outcome {
        Ok(()) => None,
        Err(e) => Some(e),
    }
}

/// `DELETE /api/v1/power/inhibit`: releases the inhibit. A failure to clear the
/// OS request is handed back for logging, not refused: the slot is gone either way.
pub fn delete_inhibit<B: PowerBackend>(config: &AppConfig, manager: &mut PowerInhibitManager<B>) -> (r:
    Result<Option<BackendError>, ApiError>)
    requires
        old(manager)@.wf(),
    ensures
        final(manager)@.wf(),
        final(manager).backend() == old(manager).backend(),
        !config.enabled_set().contains("power"@) ==> {
            &&& r matches Err(e) && e.status == STATUS_FORBIDDEN && e.message@ == disabled_message(
                "power"@,
            )
            &&& final(manager)@ == old(manager)@
        },
        config.enabled_set().contains("power"@) ==> {
            &&& old(manager)@.handle is None ==> r == Ok::<Option<BackendError>, ApiError>(None)
            &&& old(manager)@.handle matches Some(h) ==> exists|outcome: Result<(), BackendError>|
                #[trigger] h.clears(outcome) && r == Ok::<Option<BackendError>, ApiError>(
                    clear_report(outcome),
                )
            &&& final(manager)@ == after_release(old(manager)@)
        },
{
    match check_enabled(config, "power") {
        Ok(()) => {},
        Err(e) => {
            return Err(e);
        },
    }
    match manager.release() {
        Some(Err(e)) => Ok(Some(e)),
        _ => Ok(None),
    }
}

/// What a successful `POST` answers is the time until the inhibit's new
/// deadline, in whole seconds: the TTL asked for, cut to one hour. Whatever
/// was asked, the answer is at most 3600 seconds, and the inhibit ends exactly
/// that many seconds after `now`.
pub proof fn law_post_answer_is_time_to_deadline<H>(
    v: InhibitView<H>,
    now: u64,
    ttl_seconds: u64,
    created: Result<H, BackendError>,
)
    requires
        now + 3_600_000_000_000 <= u64::MAX,
        v.expires_at is Some || created is Ok,
    ensures
        granted_ttl_seconds(ttl_seconds) <= 3600,
        ttl_seconds <= 3600 ==> granted_ttl_seconds(ttl_seconds) == ttl_seconds,
        ttl_seconds > 3600 ==> granted_ttl_seconds(ttl_seconds) == 3600,
        after_acquire(v, now, granted_ttl_nanos(ttl_seconds), created).expires_at == Some(
            (now + granted_ttl_seconds(ttl_seconds) * 1_000_000_000) as u64,
        ),
{
    assert(granted_ttl_seconds(ttl_seconds) * 1_000_000_000 <= 3_600_000_000_000) by (
    nonlinear_arith)
        requires
            granted_ttl_seconds(ttl_seconds) <= 3600,
    ;
}

/// The status reports whether an inhibit is active and, when it is, the
/// whole seconds left: the largest `s` with `s` seconds no more than the
/// time left.
pub proof fn law_status_reports_whole_seconds_left(remaining: Option<u64>)
    ensures
        inhibit_status_spec(remaining).active <==> remaining is Some,
        remaining is None ==> inhibit_status_spec(remaining).remaining_seconds is None,
        remaining matches Some(n) ==> (inhibit_status_spec(remaining).remaining_seconds matches Some(
            s,
        ) && s * 1_000_000_000 <= n && n < (s + 1) * 1_000_000_000),
{
    if let Some(n) = remaining {
        let s = n / 1_000_000_000;
        assert(s * 1_000_000_000 <= n && n < (s + 1) * 1_000_000_000) by (nonlinear_arith)
            requires
                s == n / 1_000_000_000,
        ;
    }
}

/// Before the deadline, the status counts down to it: the whole seconds
/// reported are the floor of the time between `now` and the deadline.
pub proof fn law_status_counts_down_to_deadline(deadline: u64, now: u64)
    requires
        now < deadline,
    ensures
        inhibit_status_spec(remaining_spec(Some(deadline), now)).active,
        inhibit_status_spec(remaining_spec(Some(deadline), now)).remaining_seconds matches Some(s)
            && s * 1_000_000_000 <= deadline - now && deadline - now < (s + 1) * 1_000_000_000,
{
    law_status_reports_whole_seconds_left(remaining_spec(Some(deadline), now));
}

} // verus!
