//! Where a thread goes to sleep and is woken.
//!
//! A thread first primes its sleeper, then looks once more for a reason to stay awake,
//! and only then sleeps. Whoever has work for it wakes it. A wake that comes after the
//! priming keeps the thread from falling asleep.

use vstd::prelude::*;

verus! {

/// What the lock of a sleeper guards: whether a thread sleeps here, or is about to.
#[derive(Clone, Copy, Debug, PartialEq, Eq, Structural)]
pub struct Sleeper {
    sleeping: bool,
}

impl Sleeper {
    /// Whether the sleeper is primed.
    pub closed spec fn view(&self) -> bool {
        self.sleeping
    }

    /// A sleeper that is not primed.
    pub fn new() -> (sleeper: Self)
        ensures
            !sleeper@,
    {
        Sleeper { sleeping: false }
    }

    /// Announces that the thread is about to sleep.
    pub fn prime(&mut self)
        ensures
            final(self)@,
    {
        self.sleeping = true;
    }

    /// Takes the announcement back.
    pub fn unprime(&mut self)
        ensures
            !final(self)@,
    {
        self.sleeping = false;
    }

    /// Whether the thread has to wait to be woken: it has not been since it primed.
    pub fn sleep(&self) -> (wait: bool)
        ensures
            wait == self@,
    {
        self.sleeping
    }

    /// Lets the thread go on, and returns whether it was asleep or about to be. If so,
    /// it has to be notified.
    pub fn wake(&mut self) -> (was_sleeping: bool)
        ensures
            was_sleeping == old(self)@,
            !final(self)@,
    {
        let was_sleeping: bool = self.sleeping;
        self.sleeping = false;
        was_sleeping
    }
}


} // verus!
