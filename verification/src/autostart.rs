use vstd::prelude::*;

use crate::error::BackendError;

verus! {

/// Registers the relay to start at login.
pub trait AutostartBackend: Send + Sync {
    /// Whether `outcome` is what registering the relay can give.
    open spec fn enables(&self, outcome: Result<(), BackendError>) -> bool {
        true
    }

    /// Whether `outcome` is what unregistering the relay can give.
    open spec fn disables(&self, outcome: Result<(), BackendError>) -> bool {
        true
    }

    /// Whether `outcome` is what asking for the registration can give.
    open spec fn reports(&self, outcome: Result<bool, BackendError>) -> bool {
        true
    }

    fn enable(&self) -> (r: Result<(), BackendError>)
        ensures
            self.enables(r),
    ;

    fn disable(&self) -> (r: Result<(), BackendError>)
        ensures
            self.disables(r),
    ;

    fn is_enabled(&self) -> (r: Result<bool, BackendError>)
        ensures
            self.reports(r),
    ;
}

/// Autostart for platforms without one: enabling and disabling succeed and
/// change nothing; the relay never reports itself as registered.
pub struct StubAutostart;

impl AutostartBackend for StubAutostart {
    open spec fn enables(&self, outcome: Result<(), BackendError>) -> bool {
        outcome is Ok
    }

    open spec fn disables(&self, outcome: Result<(), BackendError>) -> bool {
        outcome is Ok
    }

    open spec fn reports(&self, outcome: Result<bool, BackendError>) -> bool {
        outcome == Ok::<bool, BackendError>(false)
    }

    fn enable(&self) -> (r: Result<(), BackendError>)
        ensures
            r is Ok,
    {
        Ok(())
    }

    fn disable(&self) -> (r: Result<(), BackendError>)
        ensures
            r is Ok,
    {
        Ok(())
    }

    fn is_enabled(&self) -> (r: Result<bool, BackendError>)
        ensures
            r == Ok::<bool, BackendError>(false),
    {
        Ok(false)
    }
}

/// The command line stored for autostart: the executable's path in double
/// quotes, so that paths with spaces survive.
pub fn quoted_command(exe_path: &str) -> (r: String)
    ensures
        r@ == seq!['"'] + exe_path@ + seq!['"'],
{
    let mut command = String::from_str("\"");
    command.append(exe_path);
    command.append("\"");
    proof {
        reveal_strlit("\"");
    }
    command
}

} // verus!
