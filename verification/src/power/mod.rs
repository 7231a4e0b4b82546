pub mod backend;
pub mod laws;
pub mod manager;

pub use backend::{PowerBackend, PowerRequestHandle, StubPowerBackend, StubPowerHandle, POWER_REQUEST_REASON};
pub use manager::{DEFAULT_TTL_SECS, MAX_TTL_SECS, PowerInhibitManager};
