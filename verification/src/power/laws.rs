//! What holds of the inhibit slot across calls.

use vstd::prelude::*;

use crate::error::BackendError;
use super::manager::{
    after_acquire, after_expire, after_release, after_renew, effective_ttl, remaining_spec,
    InhibitView, MAX_TTL_NANOS,
};

verus! {

/// No TTL is ever granted beyond the maximum, and one within it is granted as asked.
pub proof fn law_ttl_clamped(ttl: u64)
    ensures
        effective_ttl(ttl) <= MAX_TTL_NANOS,
        ttl <= MAX_TTL_NANOS ==> effective_ttl(ttl) == ttl,
        ttl > MAX_TTL_NANOS ==> effective_ttl(ttl) == MAX_TTL_NANOS,
{
}

/// Every operation keeps the slot well formed: a live inhibit holds its
/// handle, and its deadline lies within the maximum TTL of the acquire that set it.
pub proof fn law_every_operation_keeps_the_slot_well_formed<H>(
    v: InhibitView<H>,
    now: u64,
    ttl: u64,
    created: Result<H, BackendError>,
    t: u64,
)
    requires
        v.wf(),
        now + effective_ttl(ttl) <= u64::MAX,
    ensures
        after_acquire(v, now, ttl, created).wf(),
        after_release(v).wf(),
        after_expire(v, t).wf(),
{
}

/// While the clock does not run back before the last acquire, the time left
/// on an inhibit is never more than the maximum TTL, and never zero.
pub proof fn law_remaining_within_max<H>(v: InhibitView<H>, now: u64)
    requires
        v.wf(),
        v.renewed_at <= now,
    ensures
        remaining_spec(v.expires_at, now) matches Some(left) ==> 0 < left && left <= MAX_TTL_NANOS,
{
}

/// At most one OS power request is outstanding at any time: every operation
/// keeps "granted = cleared + (1 if active)".
pub proof fn law_at_most_one_outstanding_request<H>(
    v: InhibitView<H>,
    now: u64,
    ttl: u64,
    created: Result<H, BackendError>,
    t: u64,
)
    requires
        v.balanced(),
    ensures
        after_acquire(v, now, ttl, created).balanced(),
        after_release(v).balanced(),
        after_expire(v, t).balanced(),
{
}

/// Renewing an active inhibit reuses its request: the backend is not asked
/// again, the handle is kept, and the latest call sets the deadline.
pub proof fn law_renewal_reuses_request<H>(
    v: InhibitView<H>,
    now: u64,
    ttl: u64,
    created: Result<H, BackendError>,
)
    requires
        v.expires_at is Some,
    ensures
        after_acquire(v, now, ttl, created) == after_renew(v, now, ttl),
        after_acquire(v, now, ttl, created).handle == v.handle,
        after_acquire(v, now, ttl, created).create_calls == v.create_calls,
        after_acquire(v, now, ttl, created).granted == v.granted,
        after_acquire(v, now, ttl, created).clear_calls == v.clear_calls,
        after_acquire(v, now, ttl, created).expires_at == Some((now + effective_ttl(ttl)) as u64),
{
}

/// Right after a successful acquire, the time left is the granted TTL (when it
/// is not zero).
pub proof fn law_remaining_after_acquire<H>(
    v: InhibitView<H>,
    now: u64,
    ttl: u64,
    created: Result<H, BackendError>,
)
    requires
        v.expires_at is Some || created is Ok,
        effective_ttl(ttl) > 0,
        now + effective_ttl(ttl) <= u64::MAX,
    ensures
        remaining_spec(after_acquire(v, now, ttl, created).expires_at, now) == Some(
            effective_ttl(ttl),
        ),
{
}

/// A slot whose deadline has been reached counts as inactive, whether or not
/// its expiry has run yet.
pub proof fn law_past_deadline_is_inactive(deadline: u64, now: u64)
    ensures
        remaining_spec(Some(deadline), now) is None <==> deadline <= now,
        remaining_spec(None, now) is None,
{
}

/// A timer set for an earlier deadline is harmless after a renewal: until the
/// renewed deadline, expiring changes nothing.
pub proof fn law_stale_timer_is_noop<H>(
    v: InhibitView<H>,
    now: u64,
    ttl: u64,
    created: Result<H, BackendError>,
    t: u64,
)
    requires
        v.expires_at is Some || created is Ok,
        now + effective_ttl(ttl) <= u64::MAX,
        t < now + effective_ttl(ttl),
    ensures
        after_expire(after_acquire(v, now, ttl, created), t) == after_acquire(v, now, ttl, created),
{
}

/// An inhibit is cleared at most once: once released or expired, releasing or
/// expiring again changes nothing.
pub proof fn law_cleared_at_most_once<H>(v: InhibitView<H>, t: u64, t2: u64)
    requires
        v.wf(),
    ensures
        after_release(after_release(v)) == after_release(v),
        after_expire(after_release(v), t) == after_release(v),
        after_expire(v, t).expires_at is None ==> after_release(after_expire(v, t)) == after_expire(
            v,
            t,
        ),
        t <= t2 && after_expire(v, t) != v ==> after_expire(after_expire(v, t), t2) == after_expire(
            v,
            t,
        ),
{
}

/// Releasing when nothing is active changes nothing.
pub proof fn law_release_without_inhibit_is_noop<H>(v: InhibitView<H>)
    requires
        v.wf(),
        v.expires_at is None,
    ensures
        after_release(v) == v,
{
}

/// An inhibit that expires or is released is cleared exactly once, and the
/// slot is empty afterwards.
pub proof fn law_expiry_clears_once<H>(v: InhibitView<H>, t: u64)
    requires
        v.expires_at matches Some(d) && d <= t,
    ensures
        after_expire(v, t).expires_at is None,
        after_expire(v, t).handle is None,
        after_expire(v, t).clear_calls == v.clear_calls + 1,
        after_release(v).clear_calls == v.clear_calls + 1,
{
}

/// After a release or an expiry, the next acquire asks the backend for a new request.
pub proof fn law_acquire_after_release_creates_request<H>(
    v: InhibitView<H>,
    now: u64,
    ttl: u64,
    created: Result<H, BackendError>,
    t: u64,
)
    ensures
        after_acquire(after_release(v), now, ttl, created).create_calls == v.create_calls + 1,
        after_expire(v, t).expires_at is None ==> after_acquire(
            after_expire(v, t),
            now,
            ttl,
            created,
        ).create_calls == v.create_calls + 1,
{
}

/// An acquire that the backend refuses, when nothing was active, leaves the
/// manager as it was but for the count of requests asked for: nothing is held,
/// and the next acquire asks again.
pub proof fn law_failed_acquire_leaves_no_inhibit<H>(
    v: InhibitView<H>,
    now: u64,
    ttl: u64,
    e: BackendError,
)
    requires
        v.expires_at is None,
    ensures
        after_acquire(v, now, ttl, Err(e)) == (InhibitView { create_calls: v.create_calls + 1, ..v }),
        after_acquire(v, now, ttl, Err(e)).expires_at is None,
        after_acquire(v, now, ttl, Err(e)).granted == v.granted,
{
}

} // verus!
