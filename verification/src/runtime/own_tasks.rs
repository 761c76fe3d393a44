//! The workers of a pool and the tasks that they have put into their own deques, step by step and in
//! any order.
//!
//! Only a worker itself puts tasks into its deque, and only while it runs one. Others may take them
//! at any time. A worker that looks for a task takes one of its own if it has any.

use vstd::prelude::*;

use crate::latch::{spec_wait_next, spec_wait_start, WaitReply, WaitStep};
use crate::runtime::parking::Place;
use crate::worker::{spec_main_next, MainStep};

verus! {

/// A moment of a run.
pub struct State {
    pub places: Seq<Place>,
    /// How many tasks each worker has in its own deque.
    pub owned: Seq<nat>,
    /// Who has taken a task and not called it yet.
    pub holds: Seq<bool>,
    /// Who has looked for a task since it was last woken, or kept from falling asleep.
    pub looked: Seq<bool>,
}

/// What can happen next.
pub enum Step {
    /// A worker takes its next step. Where that asks for anything, `yes` and `completion` are the
    /// reply.
    Work { worker: int, yes: bool, completion: Option<bool> },
    /// A worker calls the task that it has taken.
    Call { worker: int },
    /// A task that a worker runs submits another one.
    Submit { worker: int },
    /// A task that a worker runs waits for a latch that is not set.
    Nest { worker: int },
    /// A worker is done waiting for a latch, and goes on with the task that waited.
    Unnest { worker: int, main: bool },
    /// Somebody else takes a task from a worker.
    Steal { victim: int },
}

/// Whether a worker runs a task there, or is about to.
pub open spec fn runs(place: Place) -> bool {
    place == Place::Main(MainStep::Run) || place == Place::Wait(WaitStep::Run)
}

/// Whether a worker looks for a task there.
pub open spec fn searches(place: Place) -> bool {
    place == Place::Main(MainStep::Search) || place == Place::Wait(WaitStep::Search)
}

/// Whether a worker is on its way to sleep there, asleep, or leaves.
pub open spec fn rests(place: Place) -> bool {
    match place {
        Place::Main(step) => step is Prime || step is CheckTerminating || step is CheckPending
            || step is Sleep || step is Exit,
        Place::Wait(step) => step is Prime || step is CheckPending || step is CheckForSleep
            || step is Sleep,
    }
}

/// Whether a worker has come from there to be awake again, and has yet to look for a task.
pub open spec fn rises(place: Place) -> bool {
    match place {
        Place::Main(step) => step is Unprime,
        Place::Wait(step) => step is Unprime || step is UnprimeDone || step is CheckAwoken,
    }
}

/// Where a worker goes from its place, given what came of it.
pub open spec fn goes_to(place: Place, yes: bool, completion: Option<bool>) -> Place {
    match place {
        Place::Main(step) => Place::Main(spec_main_next(step, yes)),
        Place::Wait(step) => Place::Wait(
            spec_wait_next(
                true,
                step,
                match step {
                    WaitStep::Search | WaitStep::CheckPending => WaitReply::Found { yes },
                    WaitStep::CheckAwake | WaitStep::CheckForSleep | WaitStep::CheckAwoken
                        => WaitReply::Latch { completion },
                    _ => WaitReply::Did,
                },
            ),
        ),
    }
}

impl State {
    pub open spec fn shape(self) -> bool {
        &&& self.owned.len() == self.places.len()
        &&& self.holds.len() == self.places.len()
        &&& self.looked.len() == self.places.len()
    }

    /// What holds of each worker at every moment.
    pub open spec fn worker_ok(self, w: int) -> bool {
        // A task that was taken is the next thing that is called.
        &&& self.holds[w] ==> runs(self.places[w])
        // Nobody rests, or has rested, with tasks of its own.
        &&& rests(self.places[w]) || rises(self.places[w]) ==> self.owned[w] == 0
        // Nobody goes to sleep again without having looked for a task.
        &&& rests(self.places[w]) ==> self.looked[w]
    }

    /// What holds at every moment.
    pub open spec fn inv(self) -> bool {
        &&& self.shape()
        &&& forall|w: int| 0 <= w < self.places.len() ==> #[trigger] self.worker_ok(w)
    }
}

/// The workers start, without any tasks.
pub open spec fn init(s: State) -> bool {
    &&& s.shape()
    &&& forall|w: int|
        0 <= w < s.places.len() ==> #[trigger] s.places[w] == Place::Main(MainStep::Search)
    &&& forall|w: int| 0 <= w < s.places.len() ==> #[trigger] s.owned[w] == 0
    &&& forall|w: int| 0 <= w < s.places.len() ==> !#[trigger] s.holds[w]
    &&& forall|w: int| 0 <= w < s.places.len() ==> !#[trigger] s.looked[w]
}

/// Whether the step can lead from the first moment to the second.
pub open spec fn next(s: State, t: State, step: Step) -> bool {
    match step {
        Step::Work { worker, yes, completion } => {
            let place = s.places[worker];
            &&& 0 <= worker < s.places.len()
            // A task that was taken is called first.
            &&& !s.holds[worker]
            // Who has tasks finds one.
            &&& searches(place) && s.owned[worker] > 0 ==> yes
            &&& place != Place::Main(MainStep::Exit)
            &&& !(place matches Place::Wait(at) && at is Done)
            &&& t == (State {
                places: s.places.update(worker, goes_to(place, yes, completion)),
                owned: if searches(place) && s.owned[worker] > 0 {
                    s.owned.update(worker, (s.owned[worker] - 1) as nat)
                } else {
                    s.owned
                },
                holds: s.holds.update(worker, searches(place) && yes),
                looked: s.looked.update(
                    worker,
                    if searches(place) {
                        true
                    } else if place == Place::Main(MainStep::Sleep) || place == Place::Wait(
                        WaitStep::Sleep,
                    ) || place == Place::Main(MainStep::Unprime) || place == Place::Wait(
                        WaitStep::Unprime,
                    ) {
                        false
                    } else {
                        s.looked[worker]
                    },
                ),
            })
        },
        Step::Call { worker } => {
            &&& 0 <= worker < s.places.len()
            &&& s.holds[worker]
            &&& t == (State { holds: s.holds.update(worker, false), ..s })
        },
        Step::Submit { worker } => {
            &&& 0 <= worker < s.places.len()
            &&& runs(s.places[worker])
            &&& !s.holds[worker]
            &&& t == (State { owned: s.owned.update(worker, s.owned[worker] + 1), ..s })
        },
        Step::Nest { worker } => {
            &&& 0 <= worker < s.places.len()
            &&& runs(s.places[worker])
            &&& !s.holds[worker]
            &&& t == (State {
                places: s.places.update(worker, Place::Wait(spec_wait_start(true))),
                ..s
            })
        },
        Step::Unnest { worker, main } => {
            &&& 0 <= worker < s.places.len()
            &&& s.places[worker] matches Place::Wait(at) && at is Done
            &&& t == (State {
                places: s.places.update(
                    worker,
                    if main {
                        Place::Main(MainStep::Run)
                    } else {
                        Place::Wait(WaitStep::Run)
                    },
                ),
                ..s
            })
        },
        Step::Steal { victim } => {
            &&& 0 <= victim < s.places.len()
            &&& s.owned[victim] > 0
            &&& t == (State { owned: s.owned.update(victim, (s.owned[victim] - 1) as nat), ..s })
        },
    }
}

/// The invariant holds at the beginning.
pub proof fn init_inv(s: State)
    requires
        init(s),
    ensures
        s.inv(),
{
    assert forall|w: int| 0 <= w < s.places.len() implies #[trigger] s.worker_ok(w) by {
        assert(s.places[w] == Place::Main(MainStep::Search));
        assert(!s.holds[w]);
    }
}

/// The invariant holds at every moment of every run.
pub proof fn step_inv(s: State, t: State, step: Step)
    requires
        s.inv(),
        next(s, t, step),
    ensures
        t.inv(),
{
    assert forall|w: int| 0 <= w < t.places.len() implies #[trigger] t.worker_ok(w) by {
        assert(s.worker_ok(w));
    }
}

/// A run: each moment but the first comes from the one before it by a step.
pub open spec fn is_run(states: Seq<State>, steps: Seq<Step>) -> bool {
    &&& states.len() == steps.len() + 1
    &&& init(states[0])
    &&& forall|i: int| 0 <= i < steps.len() ==> next(states[i], states[i + 1], #[trigger] steps[i])
}

proof fn lemma_run(states: Seq<State>, steps: Seq<Step>, i: int)
    requires
        is_run(states, steps),
        0 <= i < states.len(),
    ensures
        states[i].inv(),
    decreases i,
{
    if i == 0 {
        init_inv(states[0]);
    } else {
        lemma_run(states, steps, i - 1);
        assert(next(states[i - 1], states[i], steps[i - 1]));
        step_inv(states[i - 1], states[i], steps[i - 1]);
    }
}

/// At no moment of any run is a worker asleep, or on its way to sleep, or gone, while its own deque
/// holds tasks that it has put there. This is so in its main loop, and while it waits for a latch.
pub proof fn nobody_sleeps_on_its_tasks(states: Seq<State>, steps: Seq<Step>, i: int, worker: int)
    requires
        is_run(states, steps),
        0 <= i < states.len(),
        0 <= worker < states[i].places.len(),
        states[i].owned[worker] > 0,
    ensures
        match states[i].places[worker] {
            Place::Main(step) => step is Search || step is Run,
            Place::Wait(step) => step is Search || step is Run || step is CheckAwake
                || step is Done,
        },
{
    lemma_run(states, steps, i);
    assert(states[i].worker_ok(worker));
}

/// At every moment of every run, a worker that has taken a task is about to call it: no task that was
/// taken is dropped.
pub proof fn taken_is_called(states: Seq<State>, steps: Seq<Step>, i: int, worker: int)
    requires
        is_run(states, steps),
        0 <= i < states.len(),
        0 <= worker < states[i].places.len(),
        states[i].holds[worker],
    ensures
        states[i].places[worker] == Place::Main(MainStep::Run) || states[i].places[worker]
            == Place::Wait(WaitStep::Run),
{
    lemma_run(states, steps, i);
    assert(states[i].worker_ok(worker));
}

/// At every moment of every run, a worker that is about to sleep, or leaves, has looked for a task
/// since it was last woken or kept awake.
pub proof fn looks_before_it_sleeps(states: Seq<State>, steps: Seq<Step>, i: int, worker: int)
    requires
        is_run(states, steps),
        0 <= i < states.len(),
        0 <= worker < states[i].places.len(),
        match states[i].places[worker] {
            Place::Main(step) => step is Prime || step is Sleep || step is Exit,
            Place::Wait(step) => step is Prime || step is Sleep,
        },
    ensures
        states[i].looked[worker],
{
    lemma_run(states, steps, i);
    assert(states[i].worker_ok(worker));
}

} // verus!
