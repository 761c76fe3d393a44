//! The workers of a pool on their way to sleep, those who bring tasks or wake somebody, and
//! the one who terminates the runtime, step by step and in any order.

use vstd::prelude::*;

use crate::latch::{spec_wait_next, WaitReply, WaitStep};
use crate::lifecycle::{spec_terminate_next, TerminateStep};
use crate::worker::{spec_main_next, MainStep};

verus! {

/// Where a worker is: in its main loop, or waiting for a latch on behalf of a task that it
/// runs. What it does further down its stack is to run tasks.
pub enum Place {
    Main(MainStep),
    Wait(WaitStep),
}

/// A moment of a run.
pub struct State {
    pub places: Seq<Place>,
    /// Whose sleeper is primed.
    pub primed: Seq<bool>,
    /// Who is counted as sleeping.
    pub counted: Seq<bool>,
    /// Who is counted as running.
    pub stays: Seq<bool>,
    pub sleeping: nat,
    pub running: nat,
    /// How many tasks came from outside and were not taken.
    pub injected: nat,
    /// The threads outside, and the worker that each of them is about to wake, if any.
    pub outside: Seq<Option<int>>,
    /// Where the thread that terminates the runtime is.
    pub terminator: TerminateStep,
    /// Whether its sleeper is primed.
    pub termination_primed: bool,
    /// Whether the last worker is about to wake it.
    pub last_wakes: bool,
}

/// What can happen next.
pub enum Step {
    /// A worker takes its next step, short of going to sleep. `yes` is what it finds where
    /// that does not show in the state, and `outside` whether a task that it finds is one
    /// that came from outside.
    Work { worker: int, yes: bool, outside: bool, completion: Option<bool> },
    /// A task that a worker runs waits for a latch.
    Nest { worker: int },
    /// A worker is done waiting for a latch.
    Unnest { worker: int, main: bool },
    /// A worker counts itself as sleeping.
    FallAsleep { worker: int },
    /// A worker that was woken goes on.
    GetUp { worker: int },
    /// A worker counts itself out.
    Leave { worker: int },
    /// A thread outside brings a task.
    Inject { thread: int },
    /// A thread outside wakes the next worker on its way.
    Visit { thread: int },
    /// Somebody wakes a worker for some other reason.
    OtherWake { worker: int },
    /// The thread that terminates the runtime takes its next step.
    Terminate,
    /// The last worker wakes that thread.
    LastWake,
}

/// How many are true.
pub open spec fn count(s: Seq<bool>) -> nat
    decreases s.len(),
{
    if s.len() == 0 {
        0
    } else {
        count(s.drop_last()) + if s.last() {
            1nat
        } else {
            0
        }
    }
}

impl State {
    pub open spec fn n(self) -> nat {
        self.places.len()
    }

    /// Whether the workers can see that the runtime terminates.
    pub open spec fn terminating(self) -> bool {
        !(self.terminator is Prime || self.terminator is Signal)
    }

    /// Whether the thread that terminates the runtime has woken a worker.
    pub open spec fn told(self, worker: int) -> bool {
        match self.terminator {
            TerminateStep::Prime => false,
            TerminateStep::Signal => false,
            TerminateStep::Wake { worker: next } => worker < next,
            _ => true,
        }
    }

    /// Whether a worker is asleep, or will be without looking for tasks again.
    pub open spec fn committed(self, worker: int) -> bool {
        self.primed[worker] && match self.places[worker] {
            Place::Main(step) => step is Sleep,
            Place::Wait(step) => step is CheckForSleep || step is Sleep,
        }
    }

    /// Whether a worker is on its way to sleep, or back.
    pub open spec fn may_be_primed(self, worker: int) -> bool {
        match self.places[worker] {
            Place::Main(step) => step is CheckTerminating || step is CheckPending
                || step is Unprime || step is Sleep || step is Exit,
            Place::Wait(step) => step is CheckPending || step is Unprime || step is CheckForSleep
                || step is UnprimeDone || step is Sleep,
        }
    }

    pub open spec fn at_sleep(self, worker: int) -> bool {
        self.places[worker] == (Place::Main(MainStep::Sleep)) || self.places[worker] == (
        Place::Wait(WaitStep::Sleep))
    }

    pub open spec fn left(self, worker: int) -> bool {
        self.places[worker] == (Place::Main(MainStep::Exit))
    }

    pub open spec fn shape(self) -> bool {
        &&& 0 < self.n() <= u32::MAX
        &&& self.primed.len() == self.n()
        &&& self.counted.len() == self.n()
        &&& self.stays.len() == self.n()
    }

    /// What holds of each worker at every moment.
    pub open spec fn worker_ok(self, w: int) -> bool {
        &&& self.primed[w] ==> self.may_be_primed(w)
        &&& self.counted[w] ==> self.at_sleep(w)
        &&& !self.stays[w] ==> self.left(w)
        &&& self.left(w) ==> self.terminating()
        // Who was told to leave and did not hear of it in time does not sleep.
        &&& self.told(w) && (self.places[w] == (Place::Main(MainStep::CheckPending))
            || self.places[w] == (Place::Main(MainStep::Sleep))) ==> !self.primed[w]
    }

    /// What holds of the termination at every moment.
    pub open spec fn termination_ok(self) -> bool {
        &&& self.terminator is Prime ==> !self.termination_primed
        &&& (self.terminator is Signal || self.terminator is Wake || self.terminator is Sleep)
            && !self.termination_primed ==> self.running == 0
        &&& self.last_wakes ==> self.running == 0
        &&& self.running == 0 && !self.last_wakes ==> !self.termination_primed
        &&& self.terminator is CheckRunning || self.terminator is Close || self.terminator is Take
            || self.terminator is Announce || self.terminator is Done ==> self.running == 0
        &&& !(self.terminator is Failed)
        &&& self.terminator matches TerminateStep::Wake { worker } ==> worker < self.n()
    }

    /// What holds at every moment.
    pub open spec fn inv(self) -> bool {
        &&& self.shape()
        &&& forall|w: int| 0 <= w < self.n() ==> #[trigger] self.worker_ok(w)
        &&& forall|j: int|
            0 <= j < self.outside.len() ==> (#[trigger] self.outside[j] matches Some(next) ==> 0
                <= next < self.n())
        &&& self.sleeping == count(self.counted)
        &&& self.running == count(self.stays)
        // A task from outside has somebody who will get to it.
        &&& self.injected > 0 ==> (exists|j: int|
            0 <= j < self.outside.len() && (#[trigger] self.outside[j]) is Some) || (exists|w: int|
            0 <= w < self.n() && !#[trigger] self.committed(w))
        &&& self.termination_ok()
    }
}

/// The workers start, and nobody else has done anything.
pub open spec fn init(s: State) -> bool {
    &&& s.shape()
    &&& forall|w: int|
        0 <= w < s.n() ==> #[trigger] s.places[w] == (Place::Main(MainStep::Search))
    &&& forall|w: int| 0 <= w < s.n() ==> !#[trigger] s.primed[w]
    &&& forall|w: int| 0 <= w < s.n() ==> !#[trigger] s.counted[w]
    &&& forall|w: int| 0 <= w < s.n() ==> #[trigger] s.stays[w]
    &&& forall|j: int| 0 <= j < s.outside.len() ==> (#[trigger] s.outside[j]) is None
    &&& s.sleeping == 0
    &&& s.running == s.n()
    &&& s.injected == 0
    &&& s.terminator == TerminateStep::Prime
    &&& !s.termination_primed
    &&& !s.last_wakes
}

/// Whether the step can lead from the first moment to the second.
pub open spec fn next(s: State, t: State, step: Step) -> bool {
    match step {
        Step::Work { worker, yes, outside, completion } => {
            &&& 0 <= worker < s.n()
            &&& match s.places[worker] {
                Place::Main(at) => {
                    let reply = match at {
                        MainStep::CheckTerminating => s.terminating(),
                        MainStep::CheckPending => s.injected > 0,
                        _ => yes,
                    };
                    let takes = at is Search && yes && outside;
                    &&& !(at is Sleep || at is Exit)
                    &&& takes ==> s.injected > 0
                    &&& t == (State {
                        places: s.places.update(
                            worker,
                            Place::Main(spec_main_next(at, reply)),
                        ),
                        primed: match at {
                            MainStep::Prime => s.primed.update(worker, true),
                            MainStep::Unprime => s.primed.update(worker, false),
                            _ => s.primed,
                        },
                        injected: if takes {
                            (s.injected - 1) as nat
                        } else {
                            s.injected
                        },
                        ..s
                    })
                },
                Place::Wait(at) => {
                    let reply = match at {
                        WaitStep::Search => WaitReply::Found { yes },
                        WaitStep::CheckPending => WaitReply::Found { yes: s.injected > 0 },
                        WaitStep::CheckAwake | WaitStep::CheckForSleep | WaitStep::CheckAwoken
                            => WaitReply::Latch { completion },
                        _ => WaitReply::Did,
                    };
                    let takes = at is Search && yes && outside;
                    &&& !(at is Sleep || at is Done)
                    &&& takes ==> s.injected > 0
                    &&& t == (State {
                        places: s.places.update(
                            worker,
                            Place::Wait(spec_wait_next(true, at, reply)),
                        ),
                        primed: match at {
                            WaitStep::Prime => s.primed.update(worker, true),
                            WaitStep::Unprime | WaitStep::UnprimeDone { .. } => s.primed.update(
                                worker,
                                false,
                            ),
                            _ => s.primed,
                        },
                        injected: if takes {
                            (s.injected - 1) as nat
                        } else {
                            s.injected
                        },
                        ..s
                    })
                },
            }
        },
        Step::Nest { worker } => {
            &&& 0 <= worker < s.n()
            &&& s.places[worker] == (Place::Main(MainStep::Run)) || s.places[worker] == (
            Place::Wait(WaitStep::Run))
            &&& t == (State {
                places: s.places.update(worker, Place::Wait(WaitStep::Search)),
                ..s
            })
        },
        Step::Unnest { worker, main } => {
            &&& 0 <= worker < s.n()
            &&& s.places[worker] matches Place::Wait(at) && at is Done
            &&& t == (State {
                places: s.places.update(
                    worker,
                    if main {
                        Place::Main(MainStep::Run)
                    } else {
                        Place::Wait(WaitStep::Run)
                    },
                ),
                ..s
            })
        },
        Step::FallAsleep { worker } => {
            &&& 0 <= worker < s.n()
            &&& s.at_sleep(worker)
            &&& !s.counted[worker]
            &&& t == (State {
                counted: s.counted.update(worker, true),
                sleeping: s.sleeping + 1,
                ..s
            })
        },
        Step::GetUp { worker } => {
            &&& 0 <= worker < s.n()
            &&& s.at_sleep(worker)
            &&& s.counted[worker]
            // A primed sleeper lets nobody pass.
            &&& !s.primed[worker]
            &&& t == (State {
                places: s.places.update(
                    worker,
                    match s.places[worker] {
                        Place::Main(at) => Place::Main(spec_main_next(at, true)),
                        Place::Wait(at) => Place::Wait(spec_wait_next(true, at, WaitReply::Did)),
                    },
                ),
                counted: s.counted.update(worker, false),
                sleeping: (s.sleeping - 1) as nat,
                ..s
            })
        },
        Step::Leave { worker } => {
            &&& 0 <= worker < s.n()
            &&& s.left(worker)
            &&& s.stays[worker]
            &&& t == (State {
                stays: s.stays.update(worker, false),
                running: (s.running - 1) as nat,
                last_wakes: s.last_wakes || s.running == 1,
                ..s
            })
        },
        Step::Inject { thread } => {
            &&& 0 <= thread < s.outside.len()
            &&& s.outside[thread] is None
            &&& t == (State {
                injected: s.injected + 1,
                outside: s.outside.update(thread, Some(0)),
                ..s
            })
        },
        Step::Visit { thread } => {
            &&& 0 <= thread < s.outside.len()
            &&& s.outside[thread] matches Some(worker)
            &&& t == (State {
                primed: s.primed.update(worker, false),
                outside: s.outside.update(
                    thread,
                    if s.primed[worker] || worker + 1 == s.n() {
                        None
                    } else {
                        Some(worker + 1)
                    },
                ),
                ..s
            })
        },
        Step::OtherWake { worker } => {
            &&& 0 <= worker < s.n()
            &&& t == (State { primed: s.primed.update(worker, false), ..s })
        },
        Step::Terminate => {
            // A primed sleeper lets nobody pass.
            &&& s.terminator is Sleep ==> !s.termination_primed
            &&& t == (State {
                terminator: spec_terminate_next(s.terminator, s.n() as usize, s.running as u32),
                termination_primed: s.termination_primed || s.terminator is Prime,
                primed: match s.terminator {
                    TerminateStep::Wake { worker } => s.primed.update(worker as int, false),
                    _ => s.primed,
                },
                ..s
            })
        },
        Step::LastWake => {
            &&& s.last_wakes
            &&& t == (State { last_wakes: false, termination_primed: false, ..s })
        },
    }
}

proof fn lemma_count_update(s: Seq<bool>, i: int, b: bool)
    requires
        0 <= i < s.len(),
    ensures
        count(s.update(i, b)) == count(s) - if s[i] {
            1int
        } else {
            0
        } + if b {
            1int
        } else {
            0
        },
    decreases s.len(),
{
    if i == s.len() - 1 {
        assert(s.update(i, b).drop_last() =~= s.drop_last());
    } else {
        assert(s.update(i, b).drop_last() =~= s.drop_last().update(i, b));
        lemma_count_update(s.drop_last(), i, b);
    }
}

proof fn lemma_count_all(s: Seq<bool>, b: bool)
    requires
        forall|i: int| 0 <= i < s.len() ==> #[trigger] s[i] == b,
    ensures
        count(s) == if b {
            s.len()
        } else {
            0
        },
    decreases s.len(),
{
    if s.len() > 0 {
        assert(s.last() == b);
        assert forall|i: int| 0 <= i < s.drop_last().len() implies #[trigger] s.drop_last()[i]
            == b by {
            assert(s[i] == b);
        }
        lemma_count_all(s.drop_last(), b);
    }
}

proof fn lemma_count_less(s: Seq<bool>, t: Seq<bool>)
    requires
        s.len() == t.len(),
        forall|i: int| 0 <= i < s.len() && #[trigger] s[i] ==> t[i],
    ensures
        count(s) <= count(t),
        forall|i: int| 0 <= i < s.len() && t[i] && !(#[trigger] s[i]) ==> count(s) < count(t),
    decreases s.len(),
{
    if s.len() > 0 {
        let a = s.drop_last();
        let b = t.drop_last();
        assert forall|i: int| 0 <= i < a.len() && #[trigger] a[i] implies b[i] by {
            assert(s[i]);
        }
        lemma_count_less(a, b);
        assert(s.last() ==> t.last()) by {
            assert(s[s.len() - 1] == s.last());
        }
        assert forall|i: int| 0 <= i < s.len() && t[i] && !(#[trigger] s[i]) implies count(s)
            < count(t) by {
            if i < a.len() {
                assert(!a[i]);
                assert(b[i]);
            }
        }
    }
}

/// The invariant holds at the beginning.
pub proof fn init_inv(s: State)
    requires
        init(s),
    ensures
        s.inv(),
{
    lemma_count_all(s.counted, false);
    lemma_count_all(s.stays, true);
    assert forall|w: int| 0 <= w < s.n() implies #[trigger] s.worker_ok(w) by {
        assert(s.places[w] == (Place::Main(MainStep::Search)));
        assert(s.stays[w]);
    }
}

proof fn lemma_workers_ok(s: State, t: State, step: Step)
    requires
        s.inv(),
        next(s, t, step),
    ensures
        t.shape(),
        forall|w: int| 0 <= w < t.n() ==> #[trigger] t.worker_ok(w),
{
    assert forall|w: int| 0 <= w < t.n() implies #[trigger] t.worker_ok(w) by {
        assert(s.worker_ok(w));
    }
}

proof fn lemma_pending_ok(s: State, t: State, step: Step)
    requires
        s.inv(),
        next(s, t, step),
    ensures
        t.injected > 0 ==> (exists|j: int|
            0 <= j < t.outside.len() && (#[trigger] t.outside[j]) is Some) || (exists|w: int|
            0 <= w < t.n() && !#[trigger] t.committed(w)),
{
    if t.injected > 0 {
        match step {
            Step::Inject { thread } => {
                assert(t.outside[thread] is Some);
            },
            Step::Visit { thread } => {
                let worker = s.outside[thread]->Some_0;
                assert(!t.committed(worker));
            },
            _ => {
                assert(s.injected > 0);
                if exists|j: int| 0 <= j < s.outside.len() && (#[trigger] s.outside[j]) is Some {
                    let j = choose|j: int|
                        0 <= j < s.outside.len() && (#[trigger] s.outside[j]) is Some;
                    assert(t.outside[j] is Some);
                } else {
                    let w = choose|w: int| 0 <= w < s.n() && !#[trigger] s.committed(w);
                    assert(s.worker_ok(w));
                    assert(!t.committed(w));
                }
            },
        }
    }
}

proof fn lemma_counts_ok(s: State, t: State, step: Step)
    requires
        s.inv(),
        next(s, t, step),
    ensures
        t.sleeping == count(t.counted),
        t.running == count(t.stays),
        t.termination_ok(),
{
    match step {
        Step::FallAsleep { worker } => {
            lemma_count_update(s.counted, worker, true);
        },
        Step::GetUp { worker } => {
            lemma_count_update(s.counted, worker, false);
        },
        Step::Leave { worker } => {
            lemma_count_update(s.stays, worker, false);
            assert(s.worker_ok(worker));
        },
        Step::Terminate => {
            if s.terminator is Prime {
                assert forall|w: int| 0 <= w < s.stays.len() implies #[trigger] s.stays[w]
                    == true by {
                    assert(s.worker_ok(w));
                }
                lemma_count_all(s.stays, true);
            }
        },
        _ => {},
    }
}

/// The invariant holds at every moment of every run.
pub proof fn step_inv(s: State, t: State, step: Step)
    requires
        s.inv(),
        next(s, t, step),
    ensures
        t.inv(),
{
    lemma_workers_ok(s, t, step);
    lemma_pending_ok(s, t, step);
    lemma_counts_ok(s, t, step);
}

/// No task is left lying: while there are tasks from outside, and nobody who brought one is
/// still on the way to wake a worker, there is a worker that is not asleep and will look for
/// tasks before it sleeps.
pub proof fn injected_is_noticed(s: State)
    requires
        s.inv(),
        s.injected > 0,
        !s.terminating(),
        forall|j: int| 0 <= j < s.outside.len() ==> (#[trigger] s.outside[j]) is None,
    ensures
        exists|w: int| 0 <= w < s.n() && !#[trigger] s.committed(w) && !s.left(w),
{
    let w = choose|w: int| 0 <= w < s.n() && !#[trigger] s.committed(w);
    assert(s.worker_ok(w));
}

/// Nobody oversleeps the end: once all workers were woken to terminate, none of them is asleep
/// in its main loop, and none goes to sleep there again.
pub proof fn termination_is_noticed(s: State, worker: int)
    requires
        s.inv(),
        s.told(worker),
        0 <= worker < s.n(),
    ensures
        s.places[worker] == (Place::Main(MainStep::Sleep)) ==> !s.primed[worker],
        s.places[worker] == (Place::Main(MainStep::CheckTerminating))
            ==> spec_main_next(MainStep::CheckTerminating, s.terminating()) == MainStep::Exit,
{
    assert(s.worker_ok(worker));
}

/// The thread that terminates the runtime gets past its sleep only when all workers have left,
/// and is not left asleep when they have.
pub proof fn termination_waits_for_all(s: State)
    requires
        s.inv(),
    ensures
        s.terminator is Sleep && !s.termination_primed ==> s.running == 0,
        s.terminator is Take ==> forall|w: int| 0 <= w < s.n() ==> #[trigger] s.left(w),
        s.running == 0 && !s.last_wakes ==> !s.termination_primed,
        !(s.terminator is Failed),
{
    if s.terminator is Take {
        assert forall|w: int| 0 <= w < s.n() implies #[trigger] s.left(w) by {
            assert(s.worker_ok(w));
            if s.stays[w] {
                lemma_count_less(Seq::new(s.n(), |i: int| false), s.stays);
                assert(!Seq::new(s.n(), |i: int| false)[w]);
            }
        }
    }
}

/// A worker primes its sleeper only where it is not primed, and when it counts itself as
/// sleeping, not everybody who runs was counted already.
pub proof fn steps_meet_their_conditions(s: State, worker: int)
    requires
        s.inv(),
        0 <= worker < s.n(),
    ensures
        s.places[worker] == (Place::Main(MainStep::Prime)) || s.places[worker] == (
        Place::Wait(WaitStep::Prime)) ==> !s.primed[worker],
        s.at_sleep(worker) && !s.counted[worker] ==> s.sleeping < s.running,
        s.at_sleep(worker) && s.counted[worker] ==> s.sleeping > 0,
        s.left(worker) && s.stays[worker] ==> s.running > 0,
{
    assert(s.worker_ok(worker));
    assert forall|w: int| 0 <= w < s.n() && #[trigger] s.counted[w] implies s.stays[w] by {
        assert(s.worker_ok(w));
    }
    lemma_count_less(s.counted, s.stays);
    let none = Seq::new(s.n(), |i: int| false);
    lemma_count_all(none, false);
    lemma_count_less(none, s.counted);
    lemma_count_less(none, s.stays);
    assert(!none[worker]);
    assert(!s.counted[worker] || !none[worker]);
}

/// A run: each moment but the first comes from the one before it by a step.
pub open spec fn is_run(states: Seq<State>, steps: Seq<Step>) -> bool {
    &&& states.len() == steps.len() + 1
    &&& init(states[0])
    &&& forall|i: int| 0 <= i < steps.len() ==> next(states[i], states[i + 1], #[trigger] steps[i])
}

/// At every moment of every run, tasks from outside that nobody is on the way to announce have a
/// worker that will look for them, no worker that was told of the end is asleep in its main loop,
/// and the runtime is not taken away before all workers have left.
pub proof fn run_leaves_nothing(states: Seq<State>, steps: Seq<Step>, i: int)
    requires
        is_run(states, steps),
        0 <= i < states.len(),
    ensures
        states[i].inv(),
        states[i].injected > 0 && !states[i].terminating() && (forall|j: int|
            0 <= j < states[i].outside.len() ==> (#[trigger] states[i].outside[j]) is None)
            ==> exists|w: int|
            0 <= w < states[i].n() && !#[trigger] states[i].committed(w) && !states[i].left(w),
        forall|w: int|
            0 <= w < states[i].n() && #[trigger] states[i].told(w) && states[i].places[w] == (
            Place::Main(MainStep::Sleep)) ==> !states[i].primed[w],
        states[i].terminator is Take ==> forall|w: int|
            0 <= w < states[i].n() ==> #[trigger] states[i].left(w),
        !(states[i].terminator is Failed),
    decreases i,
{
    if i == 0 {
        init_inv(states[0]);
    } else {
        run_leaves_nothing(states, steps, i - 1);
        assert(next(states[i - 1], states[i], steps[i - 1]));
        step_inv(states[i - 1], states[i], steps[i - 1]);
    }
    let s = states[i];
    if s.injected > 0 && !s.terminating() && (forall|j: int|
        0 <= j < s.outside.len() ==> (#[trigger] s.outside[j]) is None) {
        injected_is_noticed(s);
    }
    assert forall|w: int| 0 <= w < s.n() && #[trigger] s.told(w) && s.places[w] == (Place::Main(
        MainStep::Sleep,
    )) implies !s.primed[w] by {
        termination_is_noticed(s, w);
    }
    termination_waits_for_all(s);
}

} // verus!
