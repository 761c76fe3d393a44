//! A scope is not left before its tasks are done, whatever they do meanwhile.
//!
//! The thread that has entered the scope and the tasks that it spawns share a count and a latch.
//! Each step here is one access to either of them.

use vstd::prelude::*;

use crate::scope::spec_last;

verus! {

/// Where the thread that has entered the scope is.
pub enum Place {
    /// In the scope: it may spawn tasks.
    Inside,
    /// Waiting for the latch.
    Waiting,
    /// Past the scope.
    Outside,
}

/// A scope and its tasks.
pub struct State {
    /// The count.
    pub running: nat,
    /// Whether the latch was set.
    pub latch_set: bool,
    pub place: Place,
    /// The tasks that were spawned and that have not been counted as finished.
    pub unfinished: nat,
    /// The tasks that were counted as finished and that are yet to set the latch.
    pub setting: nat,
}

/// What can happen.
pub enum Step {
    /// The thread spawns a task.
    Spawn,
    /// A task is counted as finished.
    Finish,
    /// A task sets the latch.
    SetLatch,
    /// The thread leaves the scope.
    Leave,
    /// The thread sees that the latch was set.
    Wake,
}

/// A scope that was just entered.
pub open spec fn init() -> State {
    State { running: 1, latch_set: false, place: Place::Inside, unfinished: 0, setting: 0 }
}

/// Whether the step can happen.
pub open spec fn enabled(s: State, step: Step) -> bool {
    match step {
        Step::Spawn => s.place is Inside,
        Step::Finish => s.unfinished > 0,
        Step::SetLatch => s.setting > 0,
        Step::Leave => s.place is Inside,
        Step::Wake => s.place is Waiting && s.latch_set,
    }
}

/// The state after the step.
pub open spec fn next(s: State, step: Step) -> State {
    match step {
        Step::Spawn => State { running: s.running + 1, unfinished: s.unfinished + 1, ..s },
        Step::Finish => State {
            running: (s.running - 1) as nat,
            unfinished: (s.unfinished - 1) as nat,
            setting: if spec_last(s.running) {
                s.setting + 1
            } else {
                s.setting
            },
            ..s
        },
        Step::SetLatch => State { latch_set: true, setting: (s.setting - 1) as nat, ..s },
        Step::Leave => State {
            running: (s.running - 1) as nat,
            place: if spec_last(s.running) {
                Place::Outside
            } else {
                Place::Waiting
            },
            ..s
        },
        Step::Wake => State { place: Place::Outside, ..s },
    }
}

/// What holds all the time.
pub open spec fn inv(s: State) -> bool {
    // The count is right.
    &&& s.running == s.unfinished + if s.place is Inside {
        1nat
    } else {
        0
    }
    // One task at most sets the latch.
    &&& s.setting + (if s.latch_set {
        1nat
    } else {
        0
    }) <= 1
    &&& match s.place {
        Place::Inside => s.setting == 0 && !s.latch_set,
        // The latch is set, or about to be, if and only if all tasks are done.
        Place::Waiting => (s.unfinished == 0 <==> s.setting == 1 || s.latch_set),
        Place::Outside => s.unfinished == 0 && s.setting == 0,
    }
}

/// What holds all the time holds at first.
pub proof fn init_inv()
    ensures
        inv(init()),
{
}

/// What holds all the time still holds after each step.
pub proof fn step_inv(s: State, step: Step)
    requires
        inv(s),
        enabled(s, step),
    ensures
        inv(next(s, step)),
{
}

/// Once the thread is past the scope, all tasks were counted as finished, and nobody touches the
/// count or the latch any more.
pub proof fn left_after_all(s: State)
    requires
        inv(s),
        s.place is Outside,
    ensures
        s.unfinished == 0,
        forall|step: Step| !enabled(s, step),
{
}

/// A thread that waits is not left waiting: as long as the latch was not set, there is a task that
/// has yet to finish, or one that has yet to set it.
pub proof fn not_left_waiting(s: State)
    requires
        inv(s),
        s.place is Waiting,
    ensures
        exists|step: Step| enabled(s, step),
        s.unfinished == 0 && s.setting == 0 ==> enabled(s, Step::Wake),
{
    if s.latch_set {
        assert(enabled(s, Step::Wake));
    } else if s.setting > 0 {
        assert(enabled(s, Step::SetLatch));
    } else {
        assert(enabled(s, Step::Finish));
    }
}

/// The count only goes down from what is not zero, and the latch is set once at most.
pub proof fn steps_meet_their_conditions(s: State, step: Step)
    requires
        inv(s),
        enabled(s, step),
    ensures
        step is Finish || step is Leave ==> s.running > 0,
        step is SetLatch ==> !s.latch_set,
{
}

/// A run: each moment but the first comes from the one before it by a step that can happen.
pub open spec fn is_run(states: Seq<State>, steps: Seq<Step>) -> bool {
    &&& states.len() == steps.len() + 1
    &&& states[0] == init()
    &&& forall|i: int|
        0 <= i < steps.len() ==> enabled(states[i], #[trigger] steps[i]) && states[i + 1] == next(
            states[i],
            steps[i],
        )
}

/// At every moment of every run, a thread that is past the scope has left no task behind, and one
/// that waits has a step to wait for.
pub proof fn run_waits_for_all(states: Seq<State>, steps: Seq<Step>, i: int)
    requires
        is_run(states, steps),
        0 <= i < states.len(),
    ensures
        inv(states[i]),
        states[i].place is Outside ==> states[i].unfinished == 0 && forall|step: Step|
            !enabled(states[i], step),
        states[i].place is Waiting ==> exists|step: Step| enabled(states[i], step),
    decreases i,
{
    if i == 0 {
        init_inv();
    } else {
        run_waits_for_all(states, steps, i - 1);
        assert(enabled(states[i - 1], steps[i - 1]));
        step_inv(states[i - 1], steps[i - 1]);
    }
    if states[i].place is Outside {
        left_after_all(states[i]);
    }
    if states[i].place is Waiting {
        not_left_waiting(states[i]);
    }
}

} // verus!
