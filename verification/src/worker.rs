//! What a worker of the pool does, one decision at a time.

use vstd::prelude::*;

use crate::deque::Deque;
use crate::hash::{fxhash32, fxhash32_usize};
use crate::rng::XorShift32;
use crate::sleeper::Sleeper;

verus! {

/// What a worker owns: the place where it sleeps, the tasks that it was given, and the
/// random numbers by which it steals.
pub struct Worker<T: Send> {
    pub sleeper: Sleeper,
    pub deque: Deque<T>,
    pub steal_rng: XorShift32,
}

impl<T: Send> Worker<T> {
    /// A worker without tasks. Its random numbers are seeded by its address, so that workers
    /// do not all steal in the same order.
    pub fn new(address: usize) -> (worker: Self)
        ensures
            !worker.sleeper@,
            worker.deque.wf(),
            worker.deque@ == Seq::<T>::empty(),
            worker.steal_rng.state == fxhash32_usize(address),
    {
        Worker {
            sleeper: Sleeper::new(),
            deque: Deque::new(),
            steal_rng: XorShift32::from_seed(fxhash32(address)),
        }
    }
}

/// What a worker does next.
#[derive(Clone, Copy, Debug, PartialEq, Eq, Structural)]
pub enum MainStep {
    /// Look for a task. The reply is whether there was one.
    Search,
    /// Run the task.
    Run,
    /// Prime the sleeper.
    Prime,
    /// Look whether the runtime terminates. The reply is whether it does.
    CheckTerminating,
    /// Look whether tasks are pending. The reply is whether there are.
    CheckPending,
    /// Take the priming back.
    Unprime,
    /// Sleep, unless woken since the priming.
    Sleep,
    /// Leave the pool.
    Exit,
}

/// The step after this one, given what came of it.
pub open spec fn spec_main_next(step: MainStep, yes: bool) -> MainStep {
    match step {
        // Tasks are run as long as there are any.
        MainStep::Search => if yes {
            MainStep::Run
        } else {
            MainStep::Prime
        },
        MainStep::Run => MainStep::Search,
        // Once primed, the worker looks again for a reason to stay awake: it may have been
        // taken to be awake when there was one.
        MainStep::Prime => MainStep::CheckTerminating,
        MainStep::CheckTerminating => if yes {
            MainStep::Exit
        } else {
            MainStep::CheckPending
        },
        MainStep::CheckPending => if yes {
            MainStep::Unprime
        } else {
            MainStep::Sleep
        },
        MainStep::Unprime => MainStep::Search,
        MainStep::Sleep => MainStep::Search,
        MainStep::Exit => MainStep::Exit,
    }
}

/// The main loop of a worker, one step at a time. Where a step asks nothing, the reply
/// does not matter.
pub fn main_step(step: MainStep, yes: bool) -> (after: MainStep)
    ensures
        after == spec_main_next(step, yes),
{
    match step {
        MainStep::Search => if yes {
            MainStep::Run
        } else {
            MainStep::Prime
        },
        MainStep::Run => MainStep::Search,
        MainStep::Prime => MainStep::CheckTerminating,
        MainStep::CheckTerminating => if yes {
            MainStep::Exit
        } else {
            MainStep::CheckPending
        },
        MainStep::CheckPending => if yes {
            MainStep::Unprime
        } else {
            MainStep::Sleep
        },
        MainStep::Unprime => MainStep::Search,
        MainStep::Sleep => MainStep::Search,
        MainStep::Exit => MainStep::Exit,
    }
}

/// The `i`-th worker of a round among `num_workers` that starts at `first`.
pub open spec fn visited(first: nat, num_workers: nat, i: nat) -> nat {
    (first + i) % num_workers
}

/// What a thief does next.
#[derive(Clone, Copy, Debug, PartialEq, Eq, Structural)]
pub enum ScanStep {
    /// Steal from this worker.
    Probe { worker: usize },
    /// Start another round: somebody else was faster, so there may be more.
    Again,
    /// Steal from the tasks that were injected: no other worker has any.
    Injector,
}

/// The rounds that a thief makes among the workers.
///
/// A round visits all workers but the thief itself, from a random one on. There is
/// another one if a steal was lost to somebody else in this one.
#[derive(Clone, Copy, Debug)]
pub struct StealScan {
    num_workers: usize,
    exclude: usize,
    first: usize,
    at: usize,
    done: usize,
    lost: bool,
}

impl StealScan {
    pub closed spec fn num_workers(&self) -> nat {
        self.num_workers as nat
    }

    /// The thief.
    pub closed spec fn exclude(&self) -> nat {
        self.exclude as nat
    }

    /// Where this round started.
    pub closed spec fn first(&self) -> nat {
        self.first as nat
    }

    /// How many workers this round has put behind it.
    pub closed spec fn done(&self) -> nat {
        self.done as nat
    }

    /// Whether a steal was lost in this round.
    pub closed spec fn lost(&self) -> bool {
        self.lost
    }

    /// The scan is at the worker that is next in its round, which is not the thief.
    pub closed spec fn wf(&self) -> bool {
        &&& self.first < self.num_workers || self.num_workers == 0
        &&& self.done <= self.num_workers
        &&& self.done < self.num_workers ==> self.at == visited(
            self.first as nat,
            self.num_workers as nat,
            self.done as nat,
        ) && self.at != self.exclude
    }

    /// Starts a round at `first`.
    pub fn new(num_workers: usize, exclude: usize, first: usize) -> (scan: Self)
        requires
            first < num_workers || num_workers == 0,
        ensures
            scan.wf(),
            scan.num_workers() == num_workers,
            scan.exclude() == exclude,
            scan.first() == first,
            scan.done() == skipped(first as nat, num_workers as nat, exclude as nat, 0),
            !scan.lost(),
    {
        let mut scan = StealScan { num_workers, exclude, first, at: first, done: 0, lost: false };
        if num_workers > 0 {
            proof {
                vstd::arithmetic::div_mod::lemma_small_mod(first as nat, num_workers as nat);
            }
            scan.skip();
        }
        scan
    }

    /// Moves on from the thief.
    fn skip(&mut self)
        requires
            old(self).num_workers > 0,
            old(self).first < old(self).num_workers,
            old(self).done <= old(self).num_workers,
            old(self).done < old(self).num_workers ==> old(self).at == visited(
                old(self).first as nat,
                old(self).num_workers as nat,
                old(self).done as nat,
            ),
        ensures
            final(self).wf(),
            final(self).num_workers == old(self).num_workers,
            final(self).exclude == old(self).exclude,
            final(self).first == old(self).first,
            final(self).lost == old(self).lost,
            final(self).done == skipped(
                old(self).first as nat,
                old(self).num_workers as nat,
                old(self).exclude as nat,
                old(self).done as nat,
            ),
    {
        if self.done < self.num_workers && self.at == self.exclude {
            proof {
                lemma_visited_next(self.first as nat, self.num_workers as nat, self.done as nat);
                if self.done + 1 < self.num_workers {
                    visits_once(
                        self.first as nat,
                        self.num_workers as nat,
                        self.done as nat,
                        (self.done + 1) as nat,
                    );
                }
            }
            self.advance();
        }
    }

    fn advance(&mut self)
        requires
            old(self).num_workers > 0,
            old(self).done < old(self).num_workers,
            old(self).at == visited(
                old(self).first as nat,
                old(self).num_workers as nat,
                old(self).done as nat,
            ),
        ensures
            *final(self) == (StealScan {
                done: (old(self).done + 1) as usize,
                at: visited(
                    old(self).first as nat,
                    old(self).num_workers as nat,
                    (old(self).done + 1) as nat,
                ) as usize,
                ..*old(self)
            }),
    {
        proof {
            lemma_visited_next(self.first as nat, self.num_workers as nat, self.done as nat);
        }
        self.done = self.done + 1;
        self.at = self.at + 1;
        if self.at == self.num_workers {
            self.at = 0;
        }
    }

    /// What to do next.
    pub fn step(&self) -> (step: ScanStep)
        requires
            self.wf(),
        ensures
            self.done() < self.num_workers() ==> (step matches ScanStep::Probe { worker } && worker
                == visited(self.first(), self.num_workers(), self.done()) && worker
                != self.exclude() && worker < self.num_workers()),
            self.done() >= self.num_workers() ==> step == if self.lost() {
                ScanStep::Again
            } else {
                ScanStep::Injector
            },
    {
        if self.done < self.num_workers {
            ScanStep::Probe { worker: self.at }
        } else if self.lost {
            ScanStep::Again
        } else {
            ScanStep::Injector
        }
    }

    /// The worker had no task for the thief. If that is not because it had none at all,
    /// somebody else was faster.
    pub fn missed(&mut self, empty: bool)
        requires
            old(self).wf(),
            old(self).done() < old(self).num_workers(),
        ensures
            final(self).wf(),
            final(self).num_workers() == old(self).num_workers(),
            final(self).exclude() == old(self).exclude(),
            final(self).first() == old(self).first(),
            final(self).done() == skipped(
                old(self).first(),
                old(self).num_workers(),
                old(self).exclude(),
                old(self).done() + 1,
            ),
            final(self).lost() == (old(self).lost() || !empty),
    {
        if !empty {
            self.lost = true;
        }
        self.advance();
        self.skip();
    }
}

/// Where a round is after `done` workers, past the thief if that is the next one.
pub open spec fn skipped(first: nat, num_workers: nat, exclude: nat, done: nat) -> nat {
    if done < num_workers && visited(first, num_workers, done) == exclude {
        done + 1
    } else {
        done
    }
}

proof fn lemma_visited_next(first: nat, num_workers: nat, i: nat)
    requires
        num_workers > 0,
    ensures
        visited(first, num_workers, i + 1) == if visited(first, num_workers, i) + 1
            == num_workers {
            0
        } else {
            visited(first, num_workers, i) + 1
        },
{
    let n = num_workers as int;
    let at = visited(first, num_workers, i) as int;
    vstd::arithmetic::div_mod::lemma_add_mod_noop((first + i) as int, 1, n);
    vstd::arithmetic::div_mod::lemma_add_mod_noop(at, 1, n);
    vstd::arithmetic::div_mod::lemma_mod_twice((first + i) as int, n);
    if at + 1 == n {
        vstd::arithmetic::div_mod::lemma_mod_self_0(n);
    } else {
        vstd::arithmetic::div_mod::lemma_small_mod((at + 1) as nat, num_workers);
    }
}

/// A round visits no worker twice.
pub proof fn visits_once(first: nat, num_workers: nat, i: nat, j: nat)
    requires
        i < j < num_workers,
    ensures
        visited(first, num_workers, i) != visited(first, num_workers, j),
{
    let n = num_workers as int;
    if visited(first, num_workers, i) == visited(first, num_workers, j) {
        vstd::arithmetic::div_mod::lemma_mod_equivalence((first + j) as int, (first + i) as int, n);
        vstd::arithmetic::div_mod::lemma_small_mod((j - i) as nat, num_workers);
    }
}

/// A round visits every worker.
pub proof fn visits_everybody(first: nat, num_workers: nat, worker: nat) -> (i: nat)
    requires
        first < num_workers,
        worker < num_workers,
    ensures
        i < num_workers,
        visited(first, num_workers, i) == worker,
{
    if worker >= first {
        vstd::arithmetic::div_mod::lemma_small_mod(worker, num_workers);
        (worker - first) as nat
    } else {
        vstd::arithmetic::div_mod::lemma_mod_add_multiples_vanish(
            worker as int,
            num_workers as int,
        );
        vstd::arithmetic::div_mod::lemma_small_mod(worker, num_workers);
        (worker + num_workers - first) as nat
    }
}

/// A round starts at its first worker and goes up from there, one by one, with the worker that has
/// number zero after the last one.
pub proof fn visits_in_order(first: nat, num_workers: nat, i: nat)
    requires
        first < num_workers,
    ensures
        visited(first, num_workers, 0) == first,
        visited(first, num_workers, i) < num_workers,
        visited(first, num_workers, i) + 1 < num_workers ==> visited(first, num_workers, i + 1)
            == visited(first, num_workers, i) + 1,
        visited(first, num_workers, i) + 1 == num_workers ==> visited(first, num_workers, i + 1)
            == 0,
{
    vstd::arithmetic::div_mod::lemma_small_mod(first, num_workers);
    vstd::arithmetic::div_mod::lemma_mod_bound((first + i) as int, num_workers as int);
    lemma_visited_next(first, num_workers, i);
}

/// A round skips the thief and nobody else: it goes on from where it is unless the thief is there,
/// and then from the next one, which is another worker if there is one left.
pub proof fn skips_the_thief(first: nat, num_workers: nat, exclude: nat, done: nat)
    requires
        first < num_workers,
    ensures
        done < num_workers && visited(first, num_workers, done) == exclude ==> skipped(
            first,
            num_workers,
            exclude,
            done,
        ) == done + 1,
        done >= num_workers || visited(first, num_workers, done) != exclude ==> skipped(
            first,
            num_workers,
            exclude,
            done,
        ) == done,
        skipped(first, num_workers, exclude, done) < num_workers ==> visited(
            first,
            num_workers,
            skipped(first, num_workers, exclude, done),
        ) != exclude,
{
    if done + 1 < num_workers {
        visits_once(first, num_workers, done, done + 1);
    }
}

/// The steps of a worker, and whether each one found what it looked for.
pub open spec fn is_main(steps: Seq<MainStep>, replies: Seq<bool>) -> bool {
    &&& steps.len() == replies.len() + 1
    &&& steps[0] is Search
    &&& forall|i: int|
        0 <= i < replies.len() ==> steps[i + 1] == #[trigger] spec_main_next(steps[i], replies[i])
}

/// A worker goes to sleep, or leaves, only after a search that found no task: what comes before the
/// priming of its sleeper is always such a search.
pub proof fn primes_after_a_search_in_vain(steps: Seq<MainStep>, replies: Seq<bool>, i: int)
    requires
        is_main(steps, replies),
        0 <= i < steps.len(),
        steps[i] is Prime,
    ensures
        i > 0,
        steps[i - 1] is Search,
        !replies[i - 1],
{
    if i > 0 {
        assert(steps[i - 1 + 1] == spec_main_next(steps[i - 1], replies[i - 1]));
    }
}

/// A worker that is about to sleep has primed its sleeper, then found that the runtime does not
/// terminate, then that no tasks are pending, and has done nothing else in between.
pub proof fn sleeps_after_looking(steps: Seq<MainStep>, replies: Seq<bool>, i: int)
    requires
        is_main(steps, replies),
        0 <= i < steps.len(),
        steps[i] is Sleep,
    ensures
        i >= 3,
        steps[i - 3] is Prime,
        steps[i - 2] is CheckTerminating,
        !replies[i - 2],
        steps[i - 1] is CheckPending,
        !replies[i - 1],
{
    if i > 0 {
        assert(steps[i - 1 + 1] == spec_main_next(steps[i - 1], replies[i - 1]));
        if i > 1 {
            assert(steps[i - 2 + 1] == spec_main_next(steps[i - 2], replies[i - 2]));
            if i > 2 {
                assert(steps[i - 3 + 1] == spec_main_next(steps[i - 3], replies[i - 3]));
            }
        }
    }
}

/// A worker leaves if and only if it has found that the runtime terminates, and that is for good.
pub proof fn leaves_to_terminate(steps: Seq<MainStep>, replies: Seq<bool>, i: int)
    requires
        is_main(steps, replies),
        0 <= i < replies.len(),
    ensures
        steps[i] is CheckTerminating && replies[i] ==> steps[i + 1] is Exit,
        steps[i + 1] is Exit ==> steps[i] is Exit || steps[i] is CheckTerminating && replies[i],
        steps[i] is Exit ==> steps[i + 1] is Exit,
        !(steps[0] is Exit),
{
    assert(steps[i + 1] == spec_main_next(steps[i], replies[i]));
}

/// A task that was found is run next, nothing else is ever run, and after it the worker looks for the
/// next one. So it does when it was woken, or kept awake by pending tasks.
pub proof fn found_is_run(steps: Seq<MainStep>, replies: Seq<bool>, i: int)
    requires
        is_main(steps, replies),
        0 <= i < replies.len(),
    ensures
        steps[i + 1] is Run <==> steps[i] is Search && replies[i],
        !(steps[0] is Run),
        steps[i] is Run ==> steps[i + 1] is Search,
        steps[i] is Sleep ==> steps[i + 1] is Search,
        steps[i] is CheckPending && replies[i] ==> steps[i + 1] is Unprime,
        steps[i] is Unprime ==> steps[i + 1] is Search,
{
    assert(steps[i + 1] == spec_main_next(steps[i], replies[i]));
}

/// A worker that has found no task, no termination and no pending tasks either is on its way to sleep
/// without detours.
pub proof fn gets_to_sleep(steps: Seq<MainStep>, replies: Seq<bool>, i: int)
    requires
        is_main(steps, replies),
        0 <= i < replies.len(),
    ensures
        steps[i] is Search && !replies[i] ==> steps[i + 1] is Prime,
        steps[i] is Prime ==> steps[i + 1] is CheckTerminating,
        steps[i] is CheckTerminating && !replies[i] ==> steps[i + 1] is CheckPending,
        steps[i] is CheckPending && !replies[i] ==> steps[i + 1] is Sleep,
{
    assert(steps[i + 1] == spec_main_next(steps[i], replies[i]));
}

} // verus!
