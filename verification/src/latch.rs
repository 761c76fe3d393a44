//! A flag that one thread waits for and another one sets, once.

pub mod handshake;
pub mod order;

use vstd::prelude::*;

verus! {

/// Not set, and the waiting thread is awake.
pub const LATCH_WAIT: u8 = 0;

/// Not set, and the waiting thread sleeps, or is about to.
pub const LATCH_SLEEP: u8 = 1;

/// Set, all went well.
pub const LATCH_READY: u8 = 2;

/// Set, something went wrong.
pub const LATCH_PANIC: u8 = 3;

/// The state of a latch that was set.
pub open spec fn set_state(ok: bool) -> u8 {
    if ok {
        LATCH_READY
    } else {
        LATCH_PANIC
    }
}

/// Whether a latch in this state was set, and if so, whether all went well.
pub open spec fn spec_completion(state: u8) -> Option<bool> {
    if state == LATCH_READY {
        Some(true)
    } else if state == LATCH_PANIC {
        Some(false)
    } else {
        None
    }
}

/// What a thread that was awake all along learns from the state of its latch.
pub fn completion_awake(state: u8) -> (result: Option<bool>)
    requires
        state == LATCH_WAIT || state == LATCH_READY || state == LATCH_PANIC,
    ensures
        result == spec_completion(state),
{
    if state != LATCH_WAIT {
        return Some(state == LATCH_READY);
    }
    None
}

/// What a thread that has just been woken learns from the state of its latch.
pub fn completion_awoken(state: u8) -> (result: Option<bool>)
    requires
        state == LATCH_SLEEP || state == LATCH_READY || state == LATCH_PANIC,
    ensures
        result == spec_completion(state),
{
    if state != LATCH_SLEEP {
        return Some(state == LATCH_READY);
    }
    None
}

/// The state that a latch is set to.
pub fn set_word(ok: bool) -> (state: u8)
    ensures
        state == set_state(ok),
{
    if ok {
        LATCH_READY
    } else {
        LATCH_PANIC
    }
}

/// Whether a thread that has set a latch that was in this state has to wake the waiting thread.
pub fn set_wakes(prev: u8) -> (wake: bool)
    requires
        prev == LATCH_WAIT || prev == LATCH_SLEEP,
    ensures
        wake == (prev == LATCH_SLEEP),
{
    prev == LATCH_SLEEP
}

/// A latch, owned by whoever looks at it.
///
/// It knows whose sleeper to wake: that of a worker, given by its number, or, with no
/// number, that of a thread outside the pool.
#[derive(Clone, Copy, Debug)]
pub struct Latch {
    state: u8,
    sleeper: Option<usize>,
}

impl Latch {
    pub closed spec fn view(&self) -> u8 {
        self.state
    }

    /// Whose sleeper the thread that waits for the latch sleeps on.
    pub closed spec fn sleeper(&self) -> Option<usize> {
        self.sleeper
    }

    /// A latch that was not set, for a worker to wait for.
    pub fn new_on_worker(worker: usize) -> (latch: Self)
        ensures
            latch@ == LATCH_WAIT,
            latch.sleeper() == Some(worker),
    {
        Latch::with_sleeper(Some(worker))
    }

    /// A latch that was not set.
    pub fn with_sleeper(sleeper: Option<usize>) -> (latch: Self)
        ensures
            latch@ == LATCH_WAIT,
            latch.sleeper() == sleeper,
    {
        Latch { state: LATCH_WAIT, sleeper }
    }

    /// Whether a task that sets this latch, and that this worker runs, was stolen from
    /// the thread that waits for it.
    pub fn stolen_by(&self, worker: usize) -> (stolen: bool)
        ensures
            stolen == (self.sleeper() != Some(worker)),
    {
        match self.sleeper {
            Some(owner) => owner != worker,
            None => true,
        }
    }

    /// Whether the latch was set, for a thread that was awake all along.
    pub fn check_completion_awake(&self) -> (result: Option<bool>)
        requires
            self@ == LATCH_WAIT || self@ == LATCH_READY || self@ == LATCH_PANIC,
        ensures
            result == spec_completion(self@),
    {
        completion_awake(self.state)
    }

    /// Whether the latch was set, for a thread that was just woken. It is awake now.
    pub fn check_completion_awoken(&mut self) -> (result: Option<bool>)
        requires
            old(self)@ == LATCH_SLEEP || old(self)@ == LATCH_READY || old(self)@ == LATCH_PANIC,
        ensures
            result == spec_completion(old(self)@),
            final(self)@ == LATCH_WAIT,
            final(self).sleeper() == old(self).sleeper(),
    {
        let state: u8 = self.state;
        self.state = LATCH_WAIT;
        completion_awoken(state)
    }

    /// Whether the latch was set, for a thread that goes to sleep if it was not. From now
    /// on, whoever sets the latch wakes the thread.
    pub fn check_completion_for_sleep(&mut self) -> (result: Option<bool>)
        requires
            old(self)@ == LATCH_WAIT || old(self)@ == LATCH_READY || old(self)@ == LATCH_PANIC,
        ensures
            result == spec_completion(old(self)@),
            final(self)@ == LATCH_SLEEP,
            final(self).sleeper() == old(self).sleeper(),
    {
        let state: u8 = self.state;
        self.state = LATCH_SLEEP;
        completion_awake(state)
    }

    /// Sets the latch, and returns whether the waiting thread has to be woken.
    pub fn set(&mut self, ok: bool) -> (wake: bool)
        requires
            old(self)@ == LATCH_WAIT || old(self)@ == LATCH_SLEEP,
        ensures
            final(self)@ == set_state(ok),
            final(self).sleeper() == old(self).sleeper(),
            wake == (old(self)@ == LATCH_SLEEP),
    {
        let prev: u8 = self.state;
        self.state = set_word(ok);
        set_wakes(prev)
    }

    /// Starts to wait for the latch. The thread is done if the latch was set already, and
    /// takes the slow path otherwise. Only a worker helps out with tasks meanwhile.
    pub fn wait(&self, on_worker: bool) -> (step: WaitStep)
        requires
            self@ == LATCH_WAIT || self@ == LATCH_READY || self@ == LATCH_PANIC,
        ensures
            step == match spec_completion(self@) {
                Some(ok) => WaitStep::Done { ok },
                None => spec_wait_start(on_worker),
            },
    {
        if let Some(ok) = self.check_completion_awake() {
            return WaitStep::Done { ok };
        }
        wait_start(on_worker)
    }

    /// The slow path of waiting, one step at a time: the step after this one, given what came
    /// of it.
    ///
    /// A termination of the runtime is not looked for: the thread goes back to where it came
    /// from first.
    pub fn wait_slow_path(on_worker: bool, step: WaitStep, reply: WaitReply) -> (after: WaitStep)
        requires
            answers(step, reply),
        ensures
            after == spec_wait_next(on_worker, step, reply),
    {
        match step {
            WaitStep::Search => match reply {
                WaitReply::Found { yes } => if yes {
                    WaitStep::Run
                } else {
                    WaitStep::Prime
                },
                _ => step,
            },
            WaitStep::Run => WaitStep::CheckAwake,
            WaitStep::CheckAwake => match reply {
                // exit asap to reduce latency.
                WaitReply::Latch { completion: Some(ok) } => WaitStep::Done { ok },
                WaitReply::Latch { completion: None } => WaitStep::Search,
                _ => step,
            },
            WaitStep::Prime => WaitStep::CheckPending,
            WaitStep::CheckPending => match reply {
                WaitReply::Found { yes } => if yes {
                    WaitStep::Unprime
                } else {
                    WaitStep::CheckForSleep
                },
                _ => step,
            },
            WaitStep::Unprime => wait_start(on_worker),
            WaitStep::CheckForSleep => match reply {
                WaitReply::Latch { completion: Some(ok) } => WaitStep::UnprimeDone { ok },
                WaitReply::Latch { completion: None } => WaitStep::Sleep,
                _ => step,
            },
            WaitStep::UnprimeDone { ok } => WaitStep::Done { ok },
            WaitStep::Sleep => WaitStep::CheckAwoken,
            WaitStep::CheckAwoken => match reply {
                WaitReply::Latch { completion: Some(ok) } => WaitStep::Done { ok },
                WaitReply::Latch { completion: None } => wait_start(on_worker),
                _ => step,
            },
            WaitStep::Done { ok } => WaitStep::Done { ok },
        }
    }
}

/// What a thread that waits for a latch does next.
#[derive(Clone, Copy, Debug, PartialEq, Eq, Structural)]
pub enum WaitStep {
    /// Look for a task. The reply is whether there was one.
    Search,
    /// Run the task.
    Run,
    /// Look at the latch, having been awake all along.
    CheckAwake,
    /// Prime the sleeper.
    Prime,
    /// Look whether tasks are pending. The reply is whether there are.
    CheckPending,
    /// Take the priming back, and start over.
    Unprime,
    /// Look at the latch, before falling asleep.
    CheckForSleep,
    /// Take the priming back, and be done.
    UnprimeDone { ok: bool },
    /// Sleep, unless woken since the priming.
    Sleep,
    /// Look at the latch, having been woken.
    CheckAwoken,
    /// The latch was set: so, or with a panic.
    Done { ok: bool },
}

/// What came of a step.
#[derive(Clone, Copy, Debug, PartialEq, Eq, Structural)]
pub enum WaitReply {
    /// It was done.
    Did,
    /// Whether there was what the step looked for.
    Found { yes: bool },
    /// Whether the latch was set, and how.
    Latch { completion: Option<bool> },
}

/// Whether the reply is one to the step.
pub open spec fn answers(step: WaitStep, reply: WaitReply) -> bool {
    match step {
        WaitStep::Search | WaitStep::CheckPending => reply is Found,
        WaitStep::CheckAwake | WaitStep::CheckForSleep | WaitStep::CheckAwoken => reply is Latch,
        WaitStep::Done { .. } => false,
        _ => reply is Did,
    }
}

/// The first step of the slow path of waiting.
pub open spec fn spec_wait_start(on_worker: bool) -> WaitStep {
    if on_worker {
        WaitStep::Search
    } else {
        WaitStep::Prime
    }
}

/// The step after this one, given what came of it.
pub open spec fn spec_wait_next(on_worker: bool, step: WaitStep, reply: WaitReply) -> WaitStep {
    match (step, reply) {
        // Tasks are run as long as there are any, and the latch is looked at after each.
        (WaitStep::Search, WaitReply::Found { yes }) => if yes {
            WaitStep::Run
        } else {
            WaitStep::Prime
        },
        (WaitStep::Run, _) => WaitStep::CheckAwake,
        (WaitStep::CheckAwake, WaitReply::Latch { completion }) => match completion {
            Some(ok) => WaitStep::Done { ok },
            None => WaitStep::Search,
        },
        // Once primed, the thread looks for pending tasks, then at the latch.
        (WaitStep::Prime, _) => WaitStep::CheckPending,
        (WaitStep::CheckPending, WaitReply::Found { yes }) => if yes {
            WaitStep::Unprime
        } else {
            WaitStep::CheckForSleep
        },
        (WaitStep::Unprime, _) => spec_wait_start(on_worker),
        (WaitStep::CheckForSleep, WaitReply::Latch { completion }) => match completion {
            Some(ok) => WaitStep::UnprimeDone { ok },
            None => WaitStep::Sleep,
        },
        (WaitStep::UnprimeDone { ok }, _) => WaitStep::Done { ok },
        (WaitStep::Sleep, _) => WaitStep::CheckAwoken,
        (WaitStep::CheckAwoken, WaitReply::Latch { completion }) => match completion {
            Some(ok) => WaitStep::Done { ok },
            None => spec_wait_start(on_worker),
        },
        _ => step,
    }
}

/// The first step of the slow path of waiting.
pub fn wait_start(on_worker: bool) -> (step: WaitStep)
    ensures
        step == spec_wait_start(on_worker),
{
    if on_worker {
        WaitStep::Search
    } else {
        WaitStep::Prime
    }
}

} // verus!
