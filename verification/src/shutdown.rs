use vstd::prelude::*;

verus! {

/// Cooperative cancellation flag observed by all long-running loops. It is
/// set at most once, from false to true: no operation ever resets it, so once
/// a task has seen it set, it stays set.
pub struct ShutdownFlag {
    requested: bool,
}

impl ShutdownFlag {
    pub closed spec fn is_requested(self) -> bool {
        self.requested
    }

    /// A fresh coordinator has not requested termination.
    pub fn new() -> (r: ShutdownFlag)
        ensures
            !r.is_requested(),
    {
        ShutdownFlag { requested: false }
    }

    /// Requests termination; the flag never goes back.
    pub fn request(&mut self)
        ensures
            final(self).is_requested(),
    {
        self.requested = true;
    }

    /// Polled at every loop iteration boundary.
    pub fn check(&self) -> (r: bool)
        ensures
            r == self.is_requested(),
    {
        self.requested
    }
}

} // verus!
