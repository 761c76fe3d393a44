//! Tasks: what workers run.

use vstd::prelude::*;

verus! {

/// Something to run once.
pub struct Task<F: FnOnce()> {
    call: F,
}

impl<F: FnOnce()> Task<F> {
    /// What the task does.
    pub closed spec fn view(&self) -> F {
        self.call
    }

    /// A task that calls `call`.
    pub fn new(call: F) -> (task: Self)
        ensures
            task@ == call,
    {
        Task { call }
    }

    /// Runs the task.
    pub fn call(self)
        requires
            self@.requires(()),
        ensures
            self@.ensures((), ()),
    {
        (self.call)()
    }
}

} // verus!
