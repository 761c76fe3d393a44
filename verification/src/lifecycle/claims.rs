//! Any number of threads that need the runtime at once, and one that terminates it, step by step and
//! in any order.
//!
//! Whoever terminates a runtime has come to it after it was announced. Threads that still use it by
//! then are not looked at here: those of the pool are in [`crate::runtime::parking`].

use vstd::prelude::*;

use crate::lifecycle::{
    spec_init_next, spec_terminate_next, InitStep, TerminateStep, INIT, INITING, UNINIT,
};

verus! {

/// A moment of a run. Runtimes are numbered in the order in which they are made.
pub struct State {
    pub state: u8,
    /// How many runtimes have been made.
    pub made: nat,
    /// How many runtimes have been taken away.
    pub ended: nat,
    /// The runtime that is published.
    pub published: Option<nat>,
    pub threads: Seq<InitStep>,
    /// Where the thread is that terminates the runtime, if anybody ever has.
    pub terminator: Option<TerminateStep>,
    /// The runtime that it terminates.
    pub target: nat,
    /// The runtime that was taken away last.
    pub taken: Option<nat>,
    /// How many workers a runtime has.
    pub num_workers: usize,
}

/// What can happen next.
pub enum Step {
    /// A thread that needs the runtime takes its next step.
    Init { thread: int },
    /// A thread that has had the runtime needs it again, and finds that none is published.
    Return { thread: int },
    /// A thread sets out to terminate the runtime.
    Begin,
    /// That thread takes its next step. Where it asks for the number of workers that are left,
    /// `running` is the reply.
    Terminate { running: u32 },
}

/// Whether a thread has claimed to make the runtime, and is not through.
pub open spec fn makes(step: InitStep) -> bool {
    step is Make || step is Publish || step is Announce
}

impl State {
    /// Whether the runtime is on its way to be terminated, and the state does not say so yet.
    pub open spec fn ending(self) -> bool {
        self.terminator matches Some(step) && (step is Prime || step is Signal || step is Wake
            || step is Sleep || step is CheckRunning || step is Close)
    }

    /// Whether the thread that terminates the runtime is past closing it, and has not announced
    /// that.
    pub open spec fn closed(self) -> bool {
        self.terminator matches Some(step) && (step is Take || step is Announce)
    }

    /// Whether there is a thread that makes a runtime.
    pub open spec fn making(self) -> bool {
        exists|i: int| 0 <= i < self.threads.len() && makes(#[trigger] self.threads[i])
    }

    /// What holds of each thread at every moment.
    pub open spec fn thread_ok(self, step: InitStep) -> bool {
        // A runtime is only made while the state says so, and nobody takes one away.
        &&& makes(step) ==> self.state == INITING && !self.closed()
        &&& step is Make ==> self.made == self.ended && self.published is None
        &&& step is Publish ==> self.made == self.ended + 1 && self.published is None
        &&& step is Announce ==> self.made == self.ended + 1 && self.published == Some(
            self.ended,
        )
        // As long as nobody has terminated a runtime, whoever is through can use it.
        &&& self.terminator is None ==> {
            &&& step is Poll || step is Nap ==> self.state != UNINIT
            &&& step is Ready ==> self.state == INIT
            &&& !(step is Failed)
        }
    }

    /// What holds at every moment.
    pub open spec fn inv(self) -> bool {
        &&& forall|i: int|
            0 <= i < self.threads.len() ==> self.thread_ok(#[trigger] self.threads[i])
        // At most one thread makes a runtime.
        &&& forall|i: int, j: int|
            0 <= i < self.threads.len() && 0 <= j < self.threads.len() && makes(
                #[trigger] self.threads[i],
            ) && makes(#[trigger] self.threads[j]) ==> i == j
        // The state says what there is.
        &&& self.state == UNINIT || self.state == INITING || self.state == INIT
        &&& self.state == UNINIT ==> self.made == self.ended && self.published is None
        &&& self.state == INIT ==> self.made == self.ended + 1 && self.published == Some(
            self.ended,
        )
        &&& self.state == INITING ==> self.making() || self.closed()
        // A runtime is there until it is taken away, and the right one is.
        &&& self.ending() ==> self.state == INIT && self.target == self.ended
        &&& self.closed() ==> self.state == INITING
        &&& self.terminator == Some(TerminateStep::Take) ==> self.made == self.ended + 1
            && self.published == Some(self.ended) && self.target == self.ended
        &&& self.terminator == Some(TerminateStep::Announce) ==> self.made == self.ended
            && self.published is None
        &&& self.terminator == Some(TerminateStep::Announce) || self.terminator == Some(
            TerminateStep::Done,
        ) ==> self.taken == Some(self.target)
        &&& self.terminator is None ==> self.ended == 0
        &&& self.ended <= self.made <= self.ended + 1
    }
}

/// There is no runtime, nobody has terminated one, and all threads are about to claim it.
pub open spec fn init(s: State) -> bool {
    &&& s.state == UNINIT
    &&& s.made == 0
    &&& s.ended == 0
    &&& s.published is None
    &&& s.terminator is None
    &&& forall|i: int| 0 <= i < s.threads.len() ==> #[trigger] s.threads[i] == InitStep::Claim
}

/// Whether the step can lead from the first moment to the second.
pub open spec fn next(s: State, t: State, step: Step) -> bool {
    match step {
        Step::Init { thread } => {
            let at = s.threads[thread];
            let claimed = s.state == UNINIT;
            &&& 0 <= thread < s.threads.len()
            &&& t == (State {
                threads: s.threads.update(thread, spec_init_next(at, claimed, s.state)),
                state: match at {
                    InitStep::Claim => if claimed {
                        INITING
                    } else {
                        s.state
                    },
                    InitStep::Announce => INIT,
                    _ => s.state,
                },
                made: match at {
                    InitStep::Make => s.made + 1,
                    _ => s.made,
                },
                published: match at {
                    InitStep::Publish => Some((s.made - 1) as nat),
                    _ => s.published,
                },
                ..s
            })
        },
        Step::Return { thread } => {
            &&& 0 <= thread < s.threads.len()
            &&& s.threads[thread] == InitStep::Ready
            &&& s.published is None
            &&& t == (State { threads: s.threads.update(thread, InitStep::Claim), ..s })
        },
        Step::Begin => {
            &&& s.terminator is None || s.terminator == Some(TerminateStep::Done)
            &&& s.state == INIT
            &&& s.published matches Some(runtime)
            &&& t == (State { terminator: Some(TerminateStep::Prime), target: runtime, ..s })
        },
        Step::Terminate { running } => {
            &&& s.terminator matches Some(at)
            &&& t == (State {
                terminator: Some(spec_terminate_next(at, s.num_workers, running)),
                state: match at {
                    TerminateStep::Close => INITING,
                    TerminateStep::Announce => UNINIT,
                    _ => s.state,
                },
                published: match at {
                    TerminateStep::Take => None,
                    _ => s.published,
                },
                taken: match at {
                    TerminateStep::Take => s.published,
                    _ => s.taken,
                },
                ended: match at {
                    TerminateStep::Take => s.ended + 1,
                    _ => s.ended,
                },
                ..s
            })
        },
    }
}

/// The invariant holds at the beginning.
pub proof fn init_inv(s: State)
    requires
        init(s),
    ensures
        s.inv(),
{
}

/// The invariant holds at every moment of every run.
pub proof fn step_inv(s: State, t: State, step: Step)
    requires
        s.inv(),
        next(s, t, step),
    ensures
        t.inv(),
{
    match step {
        Step::Init { thread } => {
            let after = t.threads[thread];
            assert(s.thread_ok(s.threads[thread]));
            assert forall|i: int| 0 <= i < t.threads.len() implies t.thread_ok(
                #[trigger] t.threads[i],
            ) by {
                assert(s.thread_ok(s.threads[i]));
            }
            if t.state == INITING && !t.closed() {
                if !makes(after) {
                    let i = choose|i: int|
                        0 <= i < s.threads.len() && makes(#[trigger] s.threads[i]);
                    assert(makes(t.threads[i]));
                }
            }
        },
        _ => {
            assert forall|i: int| 0 <= i < t.threads.len() implies t.thread_ok(
                #[trigger] t.threads[i],
            ) by {
                assert(s.thread_ok(s.threads[i]));
            }
            if t.state == INITING && !t.closed() {
                let i = choose|i: int| 0 <= i < s.threads.len() && makes(#[trigger] s.threads[i]);
                assert(makes(t.threads[i]));
            }
        },
    }
}

/// There is one runtime at most at a time. As long as nobody has terminated one, it is made once,
/// whoever needs it, and whoever is through finds it there.
pub proof fn made_once(s: State, thread: int)
    requires
        s.inv(),
        0 <= thread < s.threads.len(),
    ensures
        s.made <= s.ended + 1,
        s.terminator is None ==> {
            &&& s.made <= 1
            &&& s.threads[thread] == InitStep::Ready ==> s.state == INIT && s.published == Some(
                0nat,
            )
            &&& s.threads[thread] != InitStep::Failed
        },
{
    assert(s.thread_ok(s.threads[thread]));
}

/// While a runtime is terminated nobody makes another one: until the end is announced, no claim to
/// make one works. It is there until it is taken away.
pub proof fn closed_to_claims(s: State, thread: int)
    requires
        s.inv(),
        s.ending() || s.closed(),
        0 <= thread < s.threads.len(),
    ensures
        s.state != UNINIT,
        !makes(s.threads[thread]),
        !makes(spec_init_next(s.threads[thread], s.state == UNINIT, s.state)),
        s.ending() || s.terminator == Some(TerminateStep::Take) ==> s.published == Some(s.target),
{
    assert(s.thread_ok(s.threads[thread]));
}

/// The runtime that is taken away is the one that was terminated, and it is the only one there was.
pub proof fn takes_what_was_terminated(s: State)
    requires
        s.inv(),
        s.terminator == Some(TerminateStep::Announce) || s.terminator == Some(TerminateStep::Done),
    ensures
        s.taken == Some(s.target),
        s.terminator == Some(TerminateStep::Announce) ==> s.published is None && s.made == s.ended,
{
}

/// A run: each moment but the first comes from the one before it by a step.
pub open spec fn is_run(states: Seq<State>, steps: Seq<Step>) -> bool {
    &&& states.len() == steps.len() + 1
    &&& init(states[0])
    &&& forall|i: int| 0 <= i < steps.len() ==> next(states[i], states[i + 1], #[trigger] steps[i])
}

/// At every moment of every run, there is one runtime at most. As long as nobody has terminated one,
/// whoever is through finds it there. While one is terminated, nobody makes another one, and the one
/// that is taken away is the one that was terminated.
pub proof fn run_has_one(states: Seq<State>, steps: Seq<Step>, i: int, thread: int)
    requires
        is_run(states, steps),
        0 <= i < states.len(),
        0 <= thread < states[i].threads.len(),
    ensures
        states[i].inv(),
        states[i].made <= states[i].ended + 1,
        states[i].terminator is None ==> {
            &&& states[i].made <= 1
            &&& states[i].threads[thread] == InitStep::Ready ==> states[i].state == INIT
                && states[i].published == Some(0nat)
            &&& states[i].threads[thread] != InitStep::Failed
        },
        states[i].ending() || states[i].closed() ==> states[i].state != UNINIT && !makes(
            states[i].threads[thread],
        ),
        states[i].terminator == Some(TerminateStep::Announce) || states[i].terminator == Some(
            TerminateStep::Done,
        ) ==> states[i].taken == Some(states[i].target),
    decreases i,
{
    if i == 0 {
        init_inv(states[0]);
    } else {
        assert(next(states[i - 1], states[i], steps[i - 1]));
        run_has_one(states, steps, i - 1, thread);
        step_inv(states[i - 1], states[i], steps[i - 1]);
    }
    made_once(states[i], thread);
    if states[i].ending() || states[i].closed() {
        closed_to_claims(states[i], thread);
    }
}

} // verus!
