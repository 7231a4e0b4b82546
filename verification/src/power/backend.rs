use vstd::prelude::*;

use crate::error::BackendError;

verus! {

/// Reason string attached to the OS power request.
/// Visible on the host via `powercfg /requests` while an inhibit is active.
pub const POWER_REQUEST_REASON: &'static str = "WSL Relay: client task in progress";

/// A live OS-level power request. Dropping it without `clear` must not leak
/// the request (the OS releases it when the handle is closed or the process exits).
pub trait PowerRequestHandle: Send {
    /// Whether `outcome` is what clearing this request can give.
    open spec fn clears(&self, outcome: Result<(), BackendError>) -> bool {
        true
    }

    fn clear(&mut self) -> (r: Result<(), BackendError>)
        ensures
            old(self).clears(r),
    ;
}

/// Creates OS-level power requests that keep the host awake.
pub trait PowerBackend: Send + Sync {
    type Handle: PowerRequestHandle;

    /// Whether `outcome` is what asking for a request with `reason` can give:
    /// the record that ties each answer of the backend to the reason it was handed.
    open spec fn creates(&self, reason: Seq<char>, outcome: Result<Self::Handle, BackendError>) -> bool {
        true
    }

    fn create_request(&self, reason: &str) -> (r: Result<Self::Handle, BackendError>)
        ensures
            self.creates(reason@, r),
    ;
}

/// Backend for platforms without power requests: every request succeeds and
/// does nothing.
pub struct StubPowerBackend;

/// The handle that [`StubPowerBackend`] hands out.
pub struct StubPowerHandle;

impl PowerRequestHandle for StubPowerHandle {
    open spec fn clears(&self, outcome: Result<(), BackendError>) -> bool {
        outcome is Ok
    }

    fn clear(&mut self) -> (r: Result<(), BackendError>)
        ensures
            r is Ok,
    {
        Ok(())
    }
}

impl PowerBackend for StubPowerBackend {
    type Handle = StubPowerHandle;

    open spec fn creates(&self, reason: Seq<char>, outcome: Result<StubPowerHandle, BackendError>) -> bool {
        outcome is Ok
    }

    fn create_request(&self, reason: &str) -> (r: Result<StubPowerHandle, BackendError>)
        ensures
            r is Ok,
    {
        Ok(StubPowerHandle)
    }
}

} // verus!
