//! The pool of workers and the tasks that wait for them.

pub mod accounts;
pub mod order;
pub mod own_tasks;
pub mod parking;

use vstd::prelude::*;
use vstd::multiset::Multiset;

use crate::deque::Deque;
use crate::hash::fxhash32_usize;
use crate::rng::{scaled, xorshift, XorShift32};
use crate::sleeper::Sleeper;
use crate::task::Task;
use crate::worker::{main_step, skipped, visited, MainStep, ScanStep, StealScan, Worker};

use self::accounts::{drained_has_no_tasks, found_is_gone, tasks_of_everybody};

verus! {

/// What a runtime stands for.
#[verifier::ext_equal]
pub struct Pool<T> {
    /// The tasks of each worker, in the order in which they were submitted.
    pub queues: Seq<Seq<T>>,
    /// The tasks that came from outside the pool, in the order in which they came.
    pub injected: Seq<T>,
    /// Whose sleeper is primed.
    pub primed: Seq<bool>,
    /// The states of the workers' random numbers.
    pub seeds: Seq<u32>,
    /// How many workers have not left.
    pub running: nat,
    /// How many workers sleep, or are about to.
    pub sleeping: nat,
    pub has_terminator: bool,
    pub terminating: bool,
    /// Whether the sleeper of the thread that terminates the runtime is primed.
    pub termination_primed: bool,
}

impl<T> Pool<T> {
    /// The numbers of the workers.
    pub open spec fn num_workers(self) -> nat {
        self.queues.len()
    }

    /// The pool after somebody woke a worker.
    pub open spec fn woken(self, worker: int) -> Self {
        Pool { primed: self.primed.update(worker, false), ..self }
    }

    /// The pool after somebody woke the first worker that can be woken, if there is one.
    pub open spec fn one_woken(self) -> Self {
        match first_primed(self.primed, 0) {
            Some(worker) => self.woken(worker as int),
            None => self,
        }
    }

    /// The pool after a task came from outside.
    pub open spec fn with_injected(self, task: T) -> Self {
        (Pool { injected: self.injected.push(task), ..self }).one_woken()
    }

    /// The pool after a worker submitted a task. Others are told only if there is more
    /// than the worker can do next, and if there is somebody to tell.
    pub open spec fn with_submitted(self, worker: int, task: T) -> Self {
        let queued = Pool {
            queues: self.queues.update(worker, self.queues[worker].push(task)),
            ..self
        };
        if self.queues[worker].len() > 0 && self.sleeping > 0 {
            queued.one_woken()
        } else {
            queued
        }
    }

    /// The pool after the first task of a worker was stolen.
    pub open spec fn without_first(self, worker: int) -> Self {
        Pool { queues: self.queues.update(worker, self.queues[worker].drop_first()), ..self }
    }

    /// The pool after a worker took its last task.
    pub open spec fn without_last(self, worker: int) -> Self {
        Pool { queues: self.queues.update(worker, self.queues[worker].drop_last()), ..self }
    }

    /// The pool after the first task that came from outside was taken.
    pub open spec fn without_injected(self) -> Self {
        Pool { injected: self.injected.drop_first(), ..self }
    }

    /// Whose task a thief takes that starts its round at `first`, if anybody's.
    pub open spec fn victim(self, first: nat, exclude: nat) -> Option<nat> {
        first_victim(self.queues, first, exclude, 0)
    }

    /// What a thief gets, and the pool afterwards.
    pub open spec fn stolen(self, first: nat, exclude: nat) -> (Option<T>, Self) {
        match self.victim(first, exclude) {
            Some(worker) => (
                Some(self.queues[worker as int].first()),
                self.without_first(worker as int),
            ),
            None => if self.injected.len() > 0 {
                (Some(self.injected.first()), self.without_injected())
            } else {
                (None, self)
            },
        }
    }

    /// What a worker finds to do, and the pool afterwards: its own last task, or else what
    /// it can steal.
    pub open spec fn found(self, worker: int) -> (Option<T>, Self) {
        if self.queues[worker].len() > 0 {
            (Some(self.queues[worker].last()), self.without_last(worker))
        } else {
            let seed = xorshift(self.seeds[worker]);
            let first = scaled(seed, self.num_workers() as u32) as nat;
            let (task, after) = self.stolen(first, worker as nat);
            (task, Pool { seeds: self.seeds.update(worker, seed), ..after })
        }
    }
}

/// A pool as it is right after it was made.
pub open spec fn fresh<T>(addresses: Seq<usize>) -> Pool<T> {
    Pool {
        queues: Seq::new(addresses.len(), |i: int| Seq::<T>::empty()),
        injected: Seq::<T>::empty(),
        primed: Seq::new(addresses.len(), |i: int| false),
        seeds: Seq::new(addresses.len(), |i: int| fxhash32_usize(addresses[i])),
        running: addresses.len(),
        sleeping: 0,
        has_terminator: false,
        terminating: false,
        termination_primed: false,
    }
}

/// The first worker from `i` on whose sleeper is primed.
pub open spec fn first_primed(primed: Seq<bool>, i: nat) -> Option<nat>
    decreases primed.len() - i,
{
    if i >= primed.len() {
        None
    } else if primed[i as int] {
        Some(i)
    } else {
        first_primed(primed, i + 1)
    }
}

/// The first worker, from the `i`-th of a round on, that has a task and is not the thief.
pub open spec fn first_victim<T>(
    queues: Seq<Seq<T>>,
    first: nat,
    exclude: nat,
    i: nat,
) -> Option<nat>
    decreases queues.len() - i,
{
    if i >= queues.len() {
        None
    } else {
        let worker = visited(first, queues.len(), i);
        if worker != exclude && queues[worker as int].len() > 0 {
            Some(worker)
        } else {
            first_victim(queues, first, exclude, i + 1)
        }
    }
}

/// A runtime, owned by whoever runs an operation on it.
pub struct Runtime<T: Send> {
    has_terminator: bool,
    terminating: bool,
    termination_sleeper: Sleeper,
    running_workers: u32,
    sleeping_workers: u32,
    workers: Vec<Worker<T>>,
    injector_deque: Deque<T>,
}

impl<T: Send> Runtime<T> {
    pub closed spec fn view(&self) -> Pool<T> {
        Pool {
            queues: Seq::new(self.workers@.len(), |i: int| self.workers@[i].deque@),
            injected: self.injector_deque@,
            primed: Seq::new(self.workers@.len(), |i: int| self.workers@[i].sleeper@),
            seeds: Seq::new(self.workers@.len(), |i: int| self.workers@[i].steal_rng.state),
            running: self.running_workers as nat,
            sleeping: self.sleeping_workers as nat,
            has_terminator: self.has_terminator,
            terminating: self.terminating,
            termination_primed: self.termination_sleeper@,
        }
    }

    /// The workers can be numbered by 32-bit words, and all deques are sound.
    pub closed spec fn wf(&self) -> bool {
        &&& self.workers@.len() <= u32::MAX
        &&& self.injector_deque.wf()
        &&& forall|i: int|
            0 <= i < self.workers@.len() ==> (#[trigger] self.workers@[i]).deque.wf()
    }

    /// What is known of any runtime.
    pub proof fn lemma_shape(&self)
        requires
            self.wf(),
        ensures
            self@.queues.len() <= u32::MAX,
            self@.primed.len() == self@.queues.len(),
            self@.seeds.len() == self@.queues.len(),
    {
    }

    /// A runtime with a worker for each address, all of them awake and without a task.
    pub fn init(addresses: &Vec<usize>) -> (runtime: Self)
        requires
            addresses@.len() <= u32::MAX,
        ensures
            runtime.wf(),
            runtime@ == fresh::<T>(addresses@),
            runtime@.queues.len() == addresses@.len(),
            runtime@.running == addresses@.len(),
    {
        let num_workers: usize = addresses.len();
        let mut workers: Vec<Worker<T>> = Vec::with_capacity(num_workers);
        let mut i: usize = 0;
        while i < num_workers
            invariant
                i <= num_workers == addresses@.len(),
                workers@.len() == i,
                forall|j: int|
                    0 <= j < i ==> {
                        let worker = #[trigger] workers@[j];
                        &&& !worker.sleeper@
                        &&& worker.deque.wf()
                        &&& worker.deque@ == Seq::<T>::empty()
                        &&& worker.steal_rng.state == fxhash32_usize(addresses@[j])
                    },
            decreases num_workers - i,
        {
            workers.push(Worker::new(addresses[i]));
            i += 1;
        }
        let runtime = Runtime {
            has_terminator: false,
            terminating: false,
            termination_sleeper: Sleeper::new(),
            running_workers: num_workers as u32,
            sleeping_workers: 0,
            workers,
            injector_deque: Deque::new(),
        };
        assert(runtime@ =~~= fresh::<T>(addresses@));
        runtime
    }

    /// The number of workers.
    pub fn num_workers(&self) -> (n: usize)
        requires
            self.wf(),
        ensures
            n == self@.num_workers(),
            n == self@.queues.len(),
    {
        self.workers.len()
    }

    /// Wakes a worker, and returns whether it was asleep, or about to be.
    pub fn wake(&mut self, worker: usize) -> (was_sleeping: bool)
        requires
            old(self).wf(),
            worker < old(self)@.num_workers(),
        ensures
            final(self).wf(),
            was_sleeping == old(self)@.primed[worker as int],
            final(self)@ == old(self)@.woken(worker as int),
    {
        let was_sleeping: bool = self.workers[worker].sleeper.wake();
        assert(self@ =~~= old(self)@.woken(worker as int));
        was_sleeping
    }

    /// Wakes the first worker that can be woken, and returns its number.
    pub fn wake_one_worker(&mut self) -> (woken: Option<usize>)
        requires
            old(self).wf(),
        ensures
            final(self).wf(),
            final(self)@ == old(self)@.one_woken(),
            woken == match first_primed(old(self)@.primed, 0) {
                Some(worker) => Some(worker as usize),
                None => None,
            },
            woken matches Some(worker) ==> worker < old(self)@.primed.len() && old(
                self,
            )@.primed[worker as int] && final(self)@.primed == old(self)@.primed.update(
                worker as int,
                false,
            ) && forall|j: int| 0 <= j < worker ==> !#[trigger] old(self)@.primed[j],
            woken is None ==> final(self)@ == old(self)@ && forall|j: int|
                0 <= j < old(self)@.primed.len() ==> !#[trigger] old(self)@.primed[j],
    {
        let mut i: usize = 0;
        while i < self.workers.len()
            invariant
                self.wf(),
                i <= self.workers@.len(),
                self@ == old(self)@,
                first_primed(old(self)@.primed, 0) == first_primed(old(self)@.primed, i as nat),
                forall|j: int| 0 <= j < i ==> !#[trigger] old(self)@.primed[j],
            decreases self.workers@.len() - i,
        {
            let ghost before = self@;
            if self.wake(i) {
                return Some(i);
            }
            assert(self@ =~~= before);
            i += 1;
        }
        None
    }

    /// Submits a task, from the worker that is given, or else from outside the pool.
    pub fn submit_task(&mut self, current: Option<usize>, task: T)
        requires
            old(self).wf(),
            current matches Some(worker) ==> worker < old(self)@.num_workers() && 2 * old(
                self,
            )@.queues[worker as int].len() <= isize::MAX,
            current is None ==> 2 * old(self)@.injected.len() <= isize::MAX,
        ensures
            final(self).wf(),
            final(self)@ == match current {
                Some(worker) => old(self)@.with_submitted(worker as int, task),
                None => old(self)@.with_injected(task),
            },
    {
        if let Some(worker) = current {
            self.submit_on_worker(worker, task);
        } else {
            self.inject_task(task);
        }
    }

    /// Adds a task to those of a worker. Who else is awake will find it if it has time. If
    /// there were others already, a sleeping worker is woken.
    pub fn submit_on_worker(&mut self, worker: usize, task: T)
        requires
            old(self).wf(),
            worker < old(self)@.num_workers(),
            2 * old(self)@.queues[worker as int].len() <= isize::MAX,
        ensures
            final(self).wf(),
            final(self)@ == old(self)@.with_submitted(worker as int, task),
    {
        let had_more: bool = self.workers[worker].deque.push(task);
        assert(self@ =~~= (Pool {
            queues: old(self)@.queues.update(
                worker as int,
                old(self)@.queues[worker as int].push(task),
            ),
            ..old(self)@
        }));
        // this can't deadlock: the worker is awake, and gets to the task itself.
        if had_more && self.sleeping_workers > 0 {
            self.wake_one_worker();
        }
    }

    /// Adds a task from outside the pool. A worker is always woken if one sleeps, since
    /// nobody who is awake is bound to get to the task.
    pub fn inject_task(&mut self, task: T)
        requires
            old(self).wf(),
            2 * old(self)@.injected.len() <= isize::MAX,
        ensures
            final(self).wf(),
            final(self)@ == old(self)@.with_injected(task),
    {
        self.injector_deque.push(task);
        assert(self@ =~~= (Pool { injected: old(self)@.injected.push(task), ..old(self)@ }));
        self.wake_one_worker();
    }

    /// Steals a task for a worker: from the first other worker of a round that has one, or
    /// else from those that came from outside.
    pub fn steal_task(&mut self, rng: &mut XorShift32, exclude: usize) -> (task: Option<T>)
        requires
            old(self).wf(),
        ensures
            final(self).wf(),
            final(rng).state == xorshift(old(rng).state),
            ({
                let first = scaled(final(rng).state, old(self)@.num_workers() as u32) as nat;
                (task, final(self)@) == old(self)@.stolen(first, exclude as nat)
            }),
    {
        let num_workers: usize = self.workers.len();
        let first: usize = rng.next_n(num_workers as u32) as usize;
        let ghost pool = self@;
        let mut scan = StealScan::new(num_workers, exclude, first);
        proof {
            lemma_skip_victim(pool.queues, first as nat, exclude as nat, 0);
        }
        loop
            invariant
                self.wf(),
                self@ == pool,
                pool == old(self)@,
                num_workers == pool.queues.len(),
                num_workers == self.workers@.len(),
                first < num_workers || num_workers == 0,
                scan.wf(),
                scan.num_workers() == num_workers,
                scan.exclude() == exclude,
                scan.first() == first,
                scan.done() <= num_workers,
                !scan.lost(),
                pool.victim(first as nat, exclude as nat) == first_victim(
                    pool.queues,
                    first as nat,
                    exclude as nat,
                    scan.done(),
                ),
                final(rng).state == xorshift(old(rng).state),
                rng.state == xorshift(old(rng).state),
                first == scaled(rng.state, num_workers as u32),
            decreases num_workers - scan.done(),
        {
            match scan.step() {
                ScanStep::Probe { worker } => {
                    match self.workers[worker].deque.steal() {
                        Ok(task) => {
                            assert(self@ =~~= pool.without_first(worker as int));
                            return Some(task);
                        },
                        Err(empty) => {
                            assert(self@ =~~= pool);
                            proof {
                                lemma_skip_victim(
                                    pool.queues,
                                    first as nat,
                                    exclude as nat,
                                    scan.done() + 1,
                                );
                            }
                            scan.missed(empty);
                        },
                    }
                },
                // nobody else is at work, so no steal is lost.
                ScanStep::Again => {
                    assert(false);
                    return None;
                },
                ScanStep::Injector => {
                    return match self.injector_deque.steal() {
                        Ok(task) => {
                            assert(self@ =~~= pool.without_injected());
                            Some(task)
                        },
                        Err(_) => {
                            assert(self@ =~~= pool);
                            None
                        },
                    };
                },
            }
        }
    }

    /// Finds a task for a worker to run.
    pub fn find_task(&mut self, worker: usize) -> (task: Option<T>)
        requires
            old(self).wf(),
            worker < old(self)@.num_workers(),
        ensures
            final(self).wf(),
            (task, final(self)@) == old(self)@.found(worker as int),
    {
        let task: Option<T> = self.workers[worker].deque.pop();
        if task.is_some() {
            assert(self@ =~~= old(self)@.without_last(worker as int));
            return task;
        }
        assert(self@ =~~= old(self)@);
        let mut rng: XorShift32 = self.workers[worker].steal_rng;
        let task: Option<T> = self.steal_task(&mut rng, worker);
        let ghost stolen = self@;
        self.workers[worker].steal_rng = rng;
        assert(self@ =~~= (Pool {
            seeds: old(self)@.seeds.update(worker as int, rng.state),
            ..stolen
        }));
        task
    }

    /// Whether the runtime terminates.
    pub fn terminating(&self) -> (yes: bool)
        ensures
            yes == self@.terminating,
    {
        self.terminating
    }

    /// Whether there are tasks that came from outside.
    pub fn tasks_pending(&self) -> (yes: bool)
        requires
            self.wf(),
        ensures
            yes == (self@.injected.len() > 0),
    {
        self.injector_deque.len() > 0
    }

    /// Announces that a worker is about to sleep.
    pub fn prime(&mut self, worker: usize)
        requires
            old(self).wf(),
            worker < old(self)@.num_workers(),
        ensures
            final(self).wf(),
            final(self)@ == (Pool {
                primed: old(self)@.primed.update(worker as int, true),
                ..old(self)@
            }),
    {
        self.workers[worker].sleeper.prime();
        assert(self@ =~~= (Pool {
            primed: old(self)@.primed.update(worker as int, true),
            ..old(self)@
        }));
    }

    /// Takes the announcement back.
    pub fn unprime(&mut self, worker: usize)
        requires
            old(self).wf(),
            worker < old(self)@.num_workers(),
        ensures
            final(self).wf(),
            final(self)@ == old(self)@.woken(worker as int),
    {
        self.workers[worker].sleeper.unprime();
        assert(self@ =~~= old(self)@.woken(worker as int));
    }

    /// Counts a worker as sleeping, and returns whether it has to wait to be woken.
    pub fn worker_sleep(&mut self, worker: usize) -> (wait: bool)
        requires
            old(self).wf(),
            worker < old(self)@.num_workers(),
            old(self)@.sleeping < old(self)@.running,
        ensures
            final(self).wf(),
            wait == old(self)@.primed[worker as int],
            final(self)@ == (Pool { sleeping: old(self)@.sleeping + 1, ..old(self)@ }),
    {
        self.sleeping_workers = self.sleeping_workers + 1;
        let wait: bool = self.workers[worker].sleeper.sleep();
        assert(self@ =~~= (Pool { sleeping: old(self)@.sleeping + 1, ..old(self)@ }));
        wait
    }

    /// Counts a worker as awake again.
    pub fn worker_awake(&mut self)
        requires
            old(self).wf(),
            old(self)@.sleeping > 0,
        ensures
            final(self).wf(),
            final(self)@ == (Pool { sleeping: (old(self)@.sleeping - 1) as nat, ..old(self)@ }),
    {
        self.sleeping_workers = self.sleeping_workers - 1;
        assert(self@ =~~= (Pool { sleeping: (old(self)@.sleeping - 1) as nat, ..old(self)@ }));
    }

    /// Counts a worker out. The last one wakes the thread that terminates the runtime, if
    /// that sleeps, and returns whether it did.
    pub fn worker_exit(&mut self) -> (woke: bool)
        requires
            old(self).wf(),
            old(self)@.running > 0,
        ensures
            final(self).wf(),
            final(self)@ == (Pool {
                running: (old(self)@.running - 1) as nat,
                termination_primed: old(self)@.termination_primed && old(self)@.running != 1,
                ..old(self)@
            }),
            woke == (old(self)@.termination_primed && old(self)@.running == 1),
    {
        let n: u32 = self.running_workers;
        self.running_workers = n - 1;
        let mut woke: bool = false;
        if n == 1 {
            woke = self.termination_sleeper.wake();
        }
        assert(self@ =~~= (Pool {
            running: (old(self)@.running - 1) as nat,
            termination_primed: old(self)@.termination_primed && old(self)@.running != 1,
            ..old(self)@
        }));
        woke
    }

    /// The number of workers that have not left.
    pub fn running_workers(&self) -> (n: u32)
        ensures
            n == self@.running,
    {
        self.running_workers
    }

    /// Whether somebody is to terminate the runtime.
    pub fn has_terminator(&self) -> (yes: bool)
        ensures
            yes == self@.has_terminator,
    {
        self.has_terminator
    }

    /// Notes that somebody is to terminate the runtime, and returns whether somebody else
    /// was already.
    pub fn claim_terminator(&mut self) -> (taken: bool)
        ensures
            old(self).wf() ==> final(self).wf(),
            taken == old(self)@.has_terminator,
            final(self)@ == (Pool { has_terminator: true, ..old(self)@ }),
    {
        let taken: bool = self.has_terminator;
        self.has_terminator = true;
        taken
    }

    /// Starts the termination: the thread that waits for it is about to sleep, and all
    /// workers are woken to see that the runtime terminates.
    pub fn begin_termination(&mut self)
        requires
            old(self).wf(),
        ensures
            final(self).wf(),
            final(self)@ == (Pool {
                primed: Seq::new(old(self)@.num_workers(), |i: int| false),
                terminating: true,
                termination_primed: true,
                ..old(self)@
            }),
    {
        self.termination_sleeper.prime();
        self.terminating = true;
        let ghost pool = Pool { terminating: true, termination_primed: true, ..old(self)@ };
        let mut i: usize = 0;
        while i < self.workers.len()
            invariant
                self.wf(),
                i <= self.workers@.len() == pool.num_workers(),
                pool.primed.len() == pool.num_workers(),
                self@ == (Pool {
                    primed: Seq::new(
                        pool.num_workers(),
                        |j: int|
                            if j < i {
                                false
                            } else {
                                pool.primed[j]
                            },
                    ),
                    ..pool
                }),
            decreases self.workers@.len() - i,
        {
            self.wake(i);
            i += 1;
            assert(self@ =~~= (Pool {
                primed: Seq::new(
                    pool.num_workers(),
                    |j: int|
                        if j < i {
                            false
                        } else {
                            pool.primed[j]
                        },
                ),
                ..pool
            }));
        }
        assert(self@ =~~= (Pool {
            primed: Seq::new(old(self)@.num_workers(), |i: int| false),
            terminating: true,
            termination_primed: true,
            ..old(self)@
        }));
    }
}

impl<F: FnOnce() + Send> Runtime<Task<F>> {
    /// Has a worker run tasks until it finds no more, and returns what it does then: it
    /// leaves if the runtime terminates, and goes to sleep otherwise.
    pub fn main(&mut self, worker: usize) -> (step: MainStep)
        requires
            old(self).wf(),
            worker < old(self)@.num_workers(),
            forall|task: Task<F>| old(self)@.tasks().contains(task) ==> #[trigger] task@.requires(
                (),
            ),
        ensures
            final(self).wf(),
            forall|task: Task<F>| old(self)@.tasks().contains(task) ==> #[trigger] task@.ensures(
                (),
                (),
            ),
            final(self)@.tasks() == Multiset::<Task<F>>::empty(),
            forall|w: int, i: int|
                0 <= w < old(self)@.queues.len() && 0 <= i < old(self)@.queues[w].len()
                    ==> (#[trigger] old(self)@.queues[w][i])@.ensures((), ()),
            forall|i: int|
                0 <= i < old(self)@.injected.len() ==> (#[trigger] old(
                    self,
                )@.injected[i])@.ensures((), ()),
            final(self)@.injected.len() == 0,
            final(self)@.queues.len() == old(self)@.queues.len(),
            forall|w: int|
                0 <= w < final(self)@.queues.len() ==> (#[trigger] final(self)@.queues[w]).len()
                    == 0,
            ({
                let drained = old(self)@.drained(worker as int);
                final(self)@ == (Pool {
                    primed: drained.primed.update(worker as int, true),
                    ..drained
                })
            }),
            step == if old(self)@.terminating {
                MainStep::Exit
            } else {
                MainStep::Sleep
            },
    {
        let ghost pool = self@;
        proof {
            self.lemma_shape();
            tasks_of_everybody(pool);
            drained_has_no_tasks(pool, worker as int);
        }
        loop
            invariant_except_break
                pool.drained(worker as int) == self@.drained(worker as int),
            invariant
                self.wf(),
                self@.shape(),
                worker < self@.num_workers(),
                pool == old(self)@,
                self@.terminating == pool.terminating,
                forall|task: Task<F>| pool.tasks().contains(task) ==> #[trigger] task@.requires(()),
                forall|task: Task<F>|
                    pool.tasks().contains(task) ==> self@.tasks().contains(task)
                        || #[trigger] task@.ensures((), ()),
                forall|task: Task<F>|
                    #[trigger] self@.tasks().contains(task) ==> pool.tasks().contains(task),
            ensures
                self@ == pool.drained(worker as int),
                self@.tasks() == Multiset::<Task<F>>::empty(),
            decreases self@.tasks().len(),
        {
            let ghost before = self@;
            proof {
                found_is_gone(self@, worker as int);
                broadcast use vstd::multiset::group_multiset_axioms;

            }
            match self.find_task(worker) {
                Some(task) => {
                    assert(before.tasks() == self@.tasks().insert(task));
                    assert(before.tasks().contains(task));
                    assert forall|other: Task<F>|
                        #[trigger] before.tasks().contains(other) implies self@.tasks().contains(
                        other,
                    ) || other == task by {}
                    assert forall|other: Task<F>|
                        #[trigger] self@.tasks().contains(other) implies before.tasks().contains(
                        other,
                    ) by {}
                    task.call();
                },
                None => {
                    break;
                },
            }
        }

        proof {
            broadcast use vstd::seq_lib::group_to_multiset_ensures;
            broadcast use vstd::multiset::group_multiset_axioms;

            assert(self@.tasks().len() == 0);
            assert(self@.injected.to_multiset().len() == 0);
        }
        self.prime(worker);
        let step: MainStep = main_step(MainStep::CheckTerminating, self.terminating());
        match step {
            MainStep::CheckPending => main_step(step, self.tasks_pending()),
            _ => step,
        }
    }
}

proof fn lemma_skip_victim<T>(queues: Seq<Seq<T>>, first: nat, exclude: nat, done: nat)
    ensures
        first_victim(queues, first, exclude, done) == first_victim(
            queues,
            first,
            exclude,
            skipped(first, queues.len(), exclude, done),
        ),
{
}

} // verus!
