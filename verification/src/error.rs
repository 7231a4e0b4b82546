use vstd::prelude::*;

verus! {

/// A failure reported by one of the platform backends (notifications,
/// clipboard, autostart, power requests).
#[derive(Debug)]
pub struct BackendError {
    pub message: String,
}

impl BackendError {
    /// An error that carries `message`.
    pub fn new(message: &str) -> (r: Self)
        ensures
            r.message@ == message@,
    {
        BackendError { message: String::from_str(message) }
    }
}

} // verus!
