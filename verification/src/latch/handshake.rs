//! A thread that waits for a latch, a thread that sets it, and others that wake the
//! waiting thread for reasons of their own, step by step and in any order.

use vstd::prelude::*;

use crate::latch::{
    answers, set_state, spec_completion, spec_wait_next, spec_wait_start, WaitReply, WaitStep,
    LATCH_PANIC, LATCH_READY, LATCH_SLEEP, LATCH_WAIT,
};

verus! {

/// Where the waiting thread is.
pub enum Waiter {
    /// It has not looked at the latch yet.
    Before,
    At { step: WaitStep },
}

/// Where the setting thread is.
pub enum Setter {
    /// The latch is not set.
    Before,
    /// The latch is set. The thread found out whether it has to wake the other one.
    Swapped { wake: bool },
    Done,
}

/// A moment of a run.
pub struct State {
    pub latch: u8,
    /// Whether the sleeper of the waiting thread is primed.
    pub primed: bool,
    pub waiter: Waiter,
    pub setter: Setter,
    /// Whether the waiting thread is a worker.
    pub on_worker: bool,
    /// What the latch is set to, sooner or later.
    pub ok: bool,
}

/// What can happen next.
pub enum Step {
    Enter,
    /// The waiting thread takes its next step. Where that looks for a task, `yes` is
    /// whether there is one.
    Wait { yes: bool },
    SetLatch,
    Wake,
    /// Somebody else wakes the waiting thread, now or late.
    OtherWake,
}

impl State {
    /// Whether the waiting thread has learnt that the latch was set.
    pub open spec fn learnt(self) -> bool {
        self.waiter matches Waiter::At { step } && (step is UnprimeDone || step is Done)
    }

    /// Whether the waiting thread has announced to sleep.
    pub open spec fn announced(self) -> bool {
        self.waiter matches Waiter::At { step } && (step is Sleep || step is CheckAwoken)
    }

    /// Whether the waiting thread is asleep.
    pub open spec fn asleep(self) -> bool {
        self.waiter == (Waiter::At { step: WaitStep::Sleep }) && self.primed
    }

    /// What holds at every moment.
    pub open spec fn inv(self) -> bool {
        // The sleeper is primed only from the priming to the end of the sleep.
        &&& self.primed ==> (self.waiter matches Waiter::At { step } && (step is CheckPending
            || step is Unprime || step is CheckForSleep || step is UnprimeDone || step is Sleep))
        // The latch tells both sides where the other one is.
        &&& !self.learnt() && self.setter is Before ==> self.latch == if self.announced() {
            LATCH_SLEEP
        } else {
            LATCH_WAIT
        }
        &&& !self.learnt() && !(self.setter is Before) ==> self.latch == set_state(self.ok)
        // What was learnt is what was set.
        &&& self.learnt() ==> !(self.setter is Before)
        &&& self.waiter matches Waiter::At { step: WaitStep::UnprimeDone { ok } } ==> ok == self.ok
        &&& self.waiter matches Waiter::At { step: WaitStep::Done { ok } } ==> ok == self.ok
        // A sleeping thread can still count on the one that sets the latch.
        &&& self.asleep() ==> self.setter is Before || self.setter == (Setter::Swapped { wake: true })
    }
}

/// Nothing has happened yet.
pub open spec fn init(s: State) -> bool {
    &&& s.latch == LATCH_WAIT
    &&& !s.primed
    &&& s.waiter is Before
    &&& s.setter is Before
}

/// What the waiting thread finds out from its step.
pub open spec fn reply(s: State, step: WaitStep, yes: bool) -> WaitReply {
    match step {
        WaitStep::Search | WaitStep::CheckPending => WaitReply::Found { yes },
        WaitStep::CheckAwake | WaitStep::CheckForSleep | WaitStep::CheckAwoken => WaitReply::Latch {
            completion: spec_completion(s.latch),
        },
        _ => WaitReply::Did,
    }
}

/// Whether the step can lead from the first moment to the second.
///
/// What a worker does while it runs a task may make it wait for other latches. It comes
/// back from that with its sleeper not primed, as it went.
pub open spec fn next(s: State, t: State, step: Step) -> bool {
    match step {
        Step::Enter => {
            &&& s.waiter is Before
            &&& t == (State {
                waiter: Waiter::At {
                    step: match spec_completion(s.latch) {
                        Some(ok) => WaitStep::Done { ok },
                        None => spec_wait_start(s.on_worker),
                    },
                },
                ..s
            })
        },
        Step::Wait { yes } => {
            &&& s.waiter matches Waiter::At { step: at }
            &&& !(at is Done)
            // A primed sleeper lets nobody pass.
            &&& at is Sleep ==> !s.primed
            &&& t == (State {
                waiter: Waiter::At { step: spec_wait_next(s.on_worker, at, reply(s, at, yes)) },
                primed: match at {
                    WaitStep::Prime => true,
                    WaitStep::Unprime | WaitStep::UnprimeDone { .. } => false,
                    _ => s.primed,
                },
                latch: match at {
                    WaitStep::CheckForSleep => LATCH_SLEEP,
                    WaitStep::CheckAwoken => LATCH_WAIT,
                    _ => s.latch,
                },
                ..s
            })
        },
        Step::SetLatch => {
            &&& s.setter is Before
            &&& t == (State {
                latch: set_state(s.ok),
                setter: Setter::Swapped { wake: s.latch == LATCH_SLEEP },
                ..s
            })
        },
        Step::Wake => {
            &&& s.setter matches Setter::Swapped { wake }
            &&& t == (State { primed: s.primed && !wake, setter: Setter::Done, ..s })
        },
        Step::OtherWake => t == (State { primed: false, ..s }),
    }
}

/// The invariant holds at the beginning.
pub proof fn init_inv(s: State)
    requires
        init(s),
    ensures
        s.inv(),
{
}

/// The invariant holds at every moment of every run.
pub proof fn step_inv(s: State, t: State, step: Step)
    requires
        s.inv(),
        next(s, t, step),
    ensures
        t.inv(),
{
}

/// No wake is lost: once the thread that sets the latch is through, the one that waits
/// for it is not asleep.
pub proof fn not_left_asleep(s: State)
    requires
        s.inv(),
        s.setter is Done,
    ensures
        !s.asleep(),
{
}

/// A thread that looks at a latch that was set learns so, and learns what it was set to.
pub proof fn set_is_seen(s: State)
    requires
        s.inv(),
        !(s.setter is Before),
        s.waiter matches Waiter::At { step } && (step is CheckAwake || step is CheckForSleep
            || step is CheckAwoken),
    ensures
        spec_completion(s.latch) == Some(s.ok),
{
}

/// Waiting ends with what the latch was set to, not before it was set, and with a sleeper that is
/// not primed.
pub proof fn wait_returns_what_was_set(s: State, ok: bool)
    requires
        s.inv(),
        s.waiter == (Waiter::At { step: WaitStep::Done { ok } }),
    ensures
        ok == s.ok,
        !(s.setter is Before),
        !s.primed,
{
}

/// Each look at the latch finds it in a state that can be met there, a latch is set only
/// once, a sleeper is primed only where it was not, and each reply is one to its step.
pub proof fn steps_meet_their_conditions(s: State, yes: bool)
    requires
        s.inv(),
    ensures
        s.setter is Before ==> s.latch == LATCH_WAIT || s.latch == LATCH_SLEEP,
        s.waiter matches Waiter::At { step } ==> {
            &&& step is CheckAwake || step is CheckForSleep ==> s.latch == LATCH_WAIT || s.latch
                == LATCH_READY || s.latch == LATCH_PANIC
            &&& step is CheckAwoken ==> s.latch == LATCH_SLEEP || s.latch == LATCH_READY || s.latch
                == LATCH_PANIC
            &&& step is Prime ==> !s.primed
            &&& !(step is Done) ==> answers(step, reply(s, step, yes))
        },
{
}

/// A run: each moment but the first comes from the one before it by a step.
pub open spec fn is_run(states: Seq<State>, steps: Seq<Step>) -> bool {
    &&& states.len() == steps.len() + 1
    &&& init(states[0])
    &&& forall|i: int| 0 <= i < steps.len() ==> next(states[i], states[i + 1], #[trigger] steps[i])
}

/// At every moment of every run, a thread that is done waiting has learnt what the latch was to be
/// set to from the start, and nobody sleeps once the latch was set and the wake is through.
pub proof fn run_wakes(states: Seq<State>, steps: Seq<Step>, i: int)
    requires
        is_run(states, steps),
        0 <= i < states.len(),
    ensures
        states[i].inv(),
        states[i].ok == states[0].ok,
        states[i].waiter matches Waiter::At { step: WaitStep::Done { ok } } ==> ok == states[0].ok
            && !(states[i].setter is Before) && !states[i].primed,
        states[i].setter is Done ==> !states[i].asleep(),
    decreases i,
{
    if i == 0 {
        init_inv(states[0]);
    } else {
        run_wakes(states, steps, i - 1);
        assert(next(states[i - 1], states[i], steps[i - 1]));
        step_inv(states[i - 1], states[i], steps[i - 1]);
    }
}

} // verus!
