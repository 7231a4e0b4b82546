use vstd::prelude::*;

use crate::error::BackendError;
use super::backend::{PowerBackend, PowerRequestHandle, POWER_REQUEST_REASON};

verus! {

/// Default inhibit duration when the client does not specify one.
/// Long enough to bridge gaps between client heartbeats.
pub const DEFAULT_TTL_SECS: u64 = 600;

/// Upper bound for client-specified TTLs. Caps how long an inhibit can
/// outlive a crashed client; oversized requests are clamped, not rejected.
pub const MAX_TTL_SECS: u64 = 3600;

/// Nanoseconds in a second; times and durations here are counted in nanoseconds.
pub const NANOS_PER_SEC: u64 = 1_000_000_000;

/// [`MAX_TTL_SECS`] in nanoseconds.
pub const MAX_TTL_NANOS: u64 = 3_600_000_000_000;

/// The TTL that a request for `ttl` nanoseconds is granted: clamped to the maximum.
pub open spec fn effective_ttl(ttl: u64) -> u64 {
    if ttl <= MAX_TTL_NANOS {
        ttl
    } else {
        MAX_TTL_NANOS
    }
}

/// Time left before `expires_at` at time `now`, or `None` when no inhibit is
/// active or its deadline has been reached.
pub open spec fn remaining_spec(expires_at: Option<u64>, now: u64) -> Option<u64> {
    match expires_at {
        Some(d) => if now < d {
            Some((d - now) as u64)
        } else {
            None
        },
        None => None,
    }
}

/// What the manager holds, as seen by contracts: the deadline of the live
/// inhibit and the handle of its OS request, if there is one; the time of the
/// acquire that set the deadline; how many times the backend was asked for a
/// request, how many of those requests were granted, and how many times one
/// was cleared.
pub struct InhibitView<H> {
    pub expires_at: Option<u64>,
    pub handle: Option<H>,
    pub renewed_at: u64,
    pub create_calls: nat,
    pub granted: nat,
    pub clear_calls: nat,
}

impl<H> InhibitView<H> {
    /// A live inhibit holds the handle of its request, and its deadline lies
    /// no further than the maximum TTL after the acquire that set it.
    pub open spec fn wf(self) -> bool {
        &&& (self.expires_at is Some <==> self.handle is Some)
        &&& (self.expires_at matches Some(d) ==> self.renewed_at <= d && d <= self.renewed_at
            + MAX_TTL_NANOS)
    }

    /// Every granted OS request has been cleared, except the one that the
    /// live inhibit holds: at most one request is outstanding at any time.
    pub open spec fn balanced(self) -> bool {
        self.granted == self.clear_calls + if self.expires_at is Some {
            1nat
        } else {
            0nat
        }
    }
}

/// The manager after a renewal at `now`: same request, deadline reset to
/// `now` plus the clamped TTL.
pub open spec fn after_renew<H>(v: InhibitView<H>, now: u64, ttl: u64) -> InhibitView<H> {
    InhibitView { expires_at: Some((now + effective_ttl(ttl)) as u64), renewed_at: now, ..v }
}

/// The manager, with no live inhibit, once the backend has answered
/// `created` to a request: the granted handle is held until `now` plus the
/// clamped TTL; a refusal leaves it as it was.
pub open spec fn after_created<H>(
    v: InhibitView<H>,
    now: u64,
    ttl: u64,
    created: Result<H, BackendError>,
) -> InhibitView<H> {
    match created {
        Ok(handle) => InhibitView {
            expires_at: Some((now + effective_ttl(ttl)) as u64),
            handle: Some(handle),
            renewed_at: now,
            granted: v.granted + 1,
            ..v
        },
        Err(_) => v,
    }
}

/// What an acquire answers once the backend has answered `created`: the
/// clamped TTL, or the backend's error.
pub open spec fn created_answer<H>(created: Result<H, BackendError>, ttl: u64) -> Result<u64, BackendError> {
    match created {
        Ok(_) => Ok(effective_ttl(ttl)),
        Err(e) => Err(e),
    }
}

/// The manager after `acquire_or_renew(now, ttl)`, where `created` is what the
/// backend answers when it is asked (only when no inhibit is live).
pub open spec fn after_acquire<H>(
    v: InhibitView<H>,
    now: u64,
    ttl: u64,
    created: Result<H, BackendError>,
) -> InhibitView<H> {
    if v.expires_at is Some {
        after_renew(v, now, ttl)
    } else {
        after_created(InhibitView { create_calls: v.create_calls + 1, ..v }, now, ttl, created)
    }
}

/// The manager after `release()`: no inhibit, and the live request (if any) cleared.
pub open spec fn after_release<H>(v: InhibitView<H>) -> InhibitView<H> {
    InhibitView {
        expires_at: None,
        handle: None,
        clear_calls: v.clear_calls + if v.expires_at is Some {
            1nat
        } else {
            0nat
        },
        ..v
    }
}

/// The manager after `expire(now)`: released if its deadline has been
/// reached, unchanged otherwise.
pub open spec fn after_expire<H>(v: InhibitView<H>, now: u64) -> InhibitView<H> {
    match v.expires_at {
        Some(d) => if d <= now {
            after_release(v)
        } else {
            v
        },
        None => v,
    }
}

struct InhibitSlot<H> {
    handle: H,
    expires_at: u64,
}

/// Owns the single system-wide inhibit slot: creates the OS power request on
/// first acquire, extends the deadline on renewals, and releases it on
/// `release` or once `expire` runs past the deadline.
pub struct PowerInhibitManager<B: PowerBackend> {
    backend: B,
    slot: Option<InhibitSlot<B::Handle>>,
    renewed_at: Ghost<u64>,
    create_calls: Ghost<nat>,
    granted: Ghost<nat>,
    clear_calls: Ghost<nat>,
}

impl<B: PowerBackend> View for PowerInhibitManager<B> {
    type V = InhibitView<B::Handle>;

    closed spec fn view(&self) -> InhibitView<B::Handle> {
        InhibitView {
            expires_at: match self.slot {
                Some(slot) => Some(slot.expires_at),
                None => None,
            },
            handle: match self.slot {
                Some(slot) => Some(slot.handle),
                None => None,
            },
            renewed_at: self.renewed_at@,
            create_calls: self.create_calls@,
            granted: self.granted@,
            clear_calls: self.clear_calls@,
        }
    }
}

/// Clamps a requested TTL (nanoseconds) to [`MAX_TTL_NANOS`].
pub fn clamp_ttl(ttl: u64) -> (r: u64)
    ensures
        r == effective_ttl(ttl),
{
    if ttl <= MAX_TTL_NANOS {
        ttl
    } else {
        MAX_TTL_NANOS
    }
}

impl<B: PowerBackend> PowerInhibitManager<B> {
    /// The backend that the manager asks for power requests.
    pub closed spec fn backend(&self) -> B {
        self.backend
    }

    /// A manager with no active inhibit.
    pub fn new(backend: B) -> (r: Self)
        ensures
            r.backend() == backend,
            r@.expires_at is None,
            r@.handle is None,
            r@.create_calls == 0,
            r@.granted == 0,
            r@.clear_calls == 0,
            r@.wf(),
            r@.balanced(),
    {
        PowerInhibitManager {
            backend,
            slot: None,
            renewed_at: Ghost(0),
            create_calls: Ghost(0),
            granted: Ghost(0),
            clear_calls: Ghost(0),
        }
    }

    /// Takes the backend's answer to a request made while no inhibit is
    /// active: a granted handle becomes the live inhibit until `now` plus the
    /// clamped TTL, which is returned; a refusal is passed on and nothing is held.
    pub fn on_created(&mut self, created: Result<B::Handle, BackendError>, now: u64, ttl: u64) -> (r:
        Result<u64, BackendError>)
        requires
            old(self)@.wf(),
            old(self)@.expires_at is None,
            now + effective_ttl(ttl) <= u64::MAX,
        ensures
            r == created_answer(created, ttl),
            final(self)@ == after_created(old(self)@, now, ttl, created),
            final(self)@.wf(),
            final(self).backend() == old(self).backend(),
    {
        let ttl = clamp_ttl(ttl);
        match created {
            Ok(handle) => {
                self.slot = Some(InhibitSlot { handle, expires_at: now + ttl });
                self.renewed_at = Ghost(now);
                self.granted = Ghost(self.granted@ + 1);
                Ok(ttl)
            },
            Err(e) => Err(e),
        }
    }

    /// Start inhibiting, or extend the deadline if already active (idempotent).
    /// The latest call wins: the deadline is always reset to `now` + the
    /// clamped TTL, which is returned. A backend request, with
    /// [`POWER_REQUEST_REASON`], is created only when no inhibit is active; if
    /// that fails the error is returned and nothing is held.
    pub fn acquire_or_renew(&mut self, now: u64, ttl: u64) -> (r: Result<u64, BackendError>)
        requires
            old(self)@.wf(),
            now + effective_ttl(ttl) <= u64::MAX,
        ensures
            old(self)@.expires_at is Some ==> r == Ok::<u64, BackendError>(effective_ttl(ttl))
                && final(self)@ == after_renew(old(self)@, now, ttl),
            old(self)@.expires_at is None ==> exists|created: Result<B::Handle, BackendError>|
                #[trigger] old(self).backend().creates(POWER_REQUEST_REASON@, created) && r
                    == created_answer(created, ttl) && final(self)@ == after_acquire(
                    old(self)@,
                    now,
                    ttl,
                    created,
                ),
            final(self)@.wf(),
            final(self).backend() == old(self).backend(),
    {
        match self.slot.take() {
            Some(slot) => {
                let ttl = clamp_ttl(ttl);
                self.slot = Some(InhibitSlot { handle: slot.handle, expires_at: now + ttl });
                self.renewed_at = Ghost(now);
                Ok(ttl)
            },
            None => {
                let created = self.backend.create_request(POWER_REQUEST_REASON);
                self.create_calls = Ghost(self.create_calls@ + 1);
                let ghost seen = created;
                let r = self.on_created(created, now, ttl);
                assert(old(self).backend().creates(POWER_REQUEST_REASON@, seen));
                assert(self@ == after_acquire(old(self)@, now, ttl, seen));
                r
            },
        }
    }

    /// Release the inhibit immediately. Returns `None` when none was active;
    /// otherwise the outcome of clearing the OS request. The slot is gone
    /// either way.
    pub fn release(&mut self) -> (r: Option<Result<(), BackendError>>)
        requires
            old(self)@.wf(),
        ensures
            r is Some <==> old(self)@.expires_at is Some,
            old(self)@.handle matches Some(h) ==> (r matches Some(outcome) && h.clears(outcome)),
            final(self)@ == after_release(old(self)@),
            final(self)@.wf(),
            final(self).backend() == old(self).backend(),
    {
        match self.slot.take() {
            Some(slot) => {
                let mut handle = slot.handle;
                let outcome = handle.clear();
                self.clear_calls = Ghost(self.clear_calls@ + 1);
                Some(outcome)
            },
            None => None,
        }
    }

    /// Time until auto-release at time `now`, or `None` when not inhibiting.
    /// A slot past its deadline (expiry not yet run) counts as inactive.
    pub fn remaining(&self, now: u64) -> (r: Option<u64>)
        ensures
            r == remaining_spec(self@.expires_at, now),
    {
        match &self.slot {
            Some(slot) => {
                if now < slot.expires_at {
                    Some(slot.expires_at - now)
                } else {
                    None
                }
            },
            None => None,
        }
    }

    /// The deadline of the active inhibit, if any.
    pub fn deadline(&self) -> (r: Option<u64>)
        ensures
            r == self@.expires_at,
    {
        match &self.slot {
            Some(slot) => Some(slot.expires_at),
            None => None,
        }
    }

    /// Runs when an expiry timer fires at time `now`. A renew may have moved the
    /// deadline after the timer was set, so the slot is cleared only if it really
    /// is past due; otherwise nothing happens and `None` is returned.
    pub fn expire(&mut self, now: u64) -> (r: Option<Result<(), BackendError>>)
        requires
            old(self)@.wf(),
        ensures
            r is Some <==> (old(self)@.expires_at matches Some(d) && d <= now),
            r matches Some(outcome) ==> (old(self)@.handle matches Some(h) && h.clears(outcome)),
            final(self)@ == after_expire(old(self)@, now),
            final(self)@.wf(),
            final(self).backend() == old(self).backend(),
    {
        let due = match &self.slot {
            Some(slot) => slot.expires_at <= now,
            None => false,
        };
        if due {
            self.release()
        } else {
            None
        }
    }
}

} // verus!
