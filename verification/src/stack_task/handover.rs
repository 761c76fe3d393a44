//! A task on the stack, the thread that waits for it, and whoever runs it, step by step and in any
//! order. That the thread that waits may sleep meanwhile, and is woken, is left to
//! [`crate::latch::handshake`].

use vstd::prelude::*;

use crate::latch::{set_state, spec_completion, LATCH_READY, LATCH_WAIT};

verus! {

/// Where the task is.
pub enum Place<R> {
    /// In a deque. That whoever takes it from there is the only one is shown in
    /// [`crate::deque::race`].
    Queued,
    /// With the worker that runs it, which has yet to take the function out of it.
    Taken,
    /// With the worker that runs it, which has called the function.
    Called { result: R },
    /// With the worker that runs it, which has yet to set the latch.
    Stored,
    /// With nobody but the thread that waits for it.
    Done,
}

/// A moment of a run.
pub struct State<R> {
    pub place: Place<R>,
    /// Whether the function is still in the task.
    pub holds_function: bool,
    /// The result in the task.
    pub value: Option<R>,
    pub latch: u8,
    /// What the function has returned, each time that it was called.
    pub returned: Seq<R>,
    /// What the thread that waits has got.
    pub got: Option<R>,
}

/// What can happen next.
pub enum Step<R> {
    /// A worker takes the task.
    Take,
    /// The worker calls the function, which returns something.
    Call { result: R },
    /// The worker stores that.
    Store,
    /// The worker sets the latch.
    SetLatch,
    /// The thread that waits sees that the latch was set, and takes the result.
    Join,
}

/// The task was just made, and submitted.
pub open spec fn init<R>() -> State<R> {
    State {
        place: Place::Queued,
        holds_function: true,
        value: None,
        latch: LATCH_WAIT,
        returned: Seq::empty(),
        got: None,
    }
}

impl<R> State<R> {
    /// What holds at every moment.
    pub open spec fn inv(self) -> bool {
        &&& self.holds_function <==> self.place is Queued || self.place is Taken
        &&& self.returned.len() == if self.holds_function {
            0nat
        } else {
            1
        }
        &&& self.place matches Place::Called { result } ==> self.returned == seq![result]
        &&& match self.value {
            Some(value) => (self.place is Stored || self.place is Done) && self.returned == seq![
                value,
            ],
            None => !(self.place is Stored || self.place is Done) || self.got is Some,
        }
        &&& self.latch == if self.place is Done {
            LATCH_READY
        } else {
            LATCH_WAIT
        }
        &&& self.got matches Some(value) ==> self.place is Done && self.returned == seq![value]
    }
}

/// Whether the step can happen.
pub open spec fn enabled<R>(s: State<R>, step: Step<R>) -> bool {
    match step {
        Step::Take => s.place is Queued,
        Step::Call { .. } => s.place is Taken,
        Step::Store => s.place is Called,
        Step::SetLatch => s.place is Stored,
        Step::Join => s.got is None && spec_completion(s.latch) == Some(true),
    }
}

/// The state after the step.
pub open spec fn next<R>(s: State<R>, step: Step<R>) -> State<R> {
    match step {
        Step::Take => State { place: Place::Taken, ..s },
        Step::Call { result } => State {
            place: Place::Called { result },
            holds_function: false,
            returned: s.returned.push(result),
            ..s
        },
        Step::Store => State {
            place: Place::Stored,
            value: Some(s.place->Called_result),
            ..s
        },
        Step::SetLatch => State { place: Place::Done, latch: set_state(true), ..s },
        Step::Join => State { value: None, got: s.value, ..s },
    }
}

/// The invariant holds at the beginning.
pub proof fn init_inv<R>()
    ensures
        init::<R>().inv(),
{
}

/// The invariant holds at every moment of every run.
pub proof fn step_inv<R>(s: State<R>, step: Step<R>)
    requires
        s.inv(),
        enabled(s, step),
    ensures
        next(s, step).inv(),
{
    match step {
        Step::Call { result } => {
            assert(s.returned.push(result) =~= seq![result]);
        },
        _ => {},
    }
}

/// The function is called once at most, and it is there to be called when it is.
pub proof fn called_once<R>(s: State<R>, step: Step<R>)
    requires
        s.inv(),
        enabled(s, step),
        step is Call,
    ensures
        s.holds_function,
        s.returned.len() == 0,
        next(s, step).returned.len() == 1,
{
}

/// The thread that waits gets what the function has returned, and there is always something for it
/// to get.
pub proof fn join_gets_the_result<R>(s: State<R>, step: Step<R>)
    requires
        s.inv(),
        enabled(s, step),
        step is Join,
    ensures
        s.value is Some,
        next(s, step).got is Some,
        s.returned == seq![next(s, step).got->0],
{
}

/// Once the thread that waits goes on, nobody touches the task any more: its memory can go.
pub proof fn untouched_after_join<R>(s: State<R>, step: Step<R>)
    requires
        s.inv(),
        s.got is Some,
    ensures
        !enabled(s, step),
{
}

/// A run: each moment but the first comes from the one before it by a step that can happen.
pub open spec fn is_run<R>(states: Seq<State<R>>, steps: Seq<Step<R>>) -> bool {
    &&& states.len() == steps.len() + 1
    &&& states[0] == init::<R>()
    &&& forall|i: int|
        0 <= i < steps.len() ==> enabled(states[i], #[trigger] steps[i]) && states[i + 1] == next(
            states[i],
            steps[i],
        )
}

/// At every moment of every run, the function has been called once at most, and what the thread
/// that waits has got, if anything, is what it returned.
pub proof fn run_hands_over<R>(states: Seq<State<R>>, steps: Seq<Step<R>>, i: int)
    requires
        is_run(states, steps),
        0 <= i < states.len(),
    ensures
        states[i].inv(),
        states[i].returned.len() <= 1,
        states[i].got matches Some(value) ==> states[i].returned == seq![value] && forall|
            step: Step<R>,
        | !enabled(states[i], step),
    decreases i,
{
    if i == 0 {
        init_inv::<R>();
    } else {
        run_hands_over(states, steps, i - 1);
        assert(enabled(states[i - 1], steps[i - 1]));
        step_inv(states[i - 1], steps[i - 1]);
    }
    if states[i].got is Some {
        assert forall|step: Step<R>| !enabled(states[i], step) by {
            untouched_after_join(states[i], step);
        }
    }
}

} // verus!
