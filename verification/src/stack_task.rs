//! Tasks that live on the stack of the thread that waits for them.

pub mod handover;

use vstd::prelude::*;

use crate::latch::{Latch, LATCH_PANIC, LATCH_READY, LATCH_SLEEP, LATCH_WAIT, WaitStep};

verus! {

/// What a task leaves behind: its result, and the latch that says that it is there.
pub struct StackTaskResult<R> {
    latch: Latch,
    value: Option<R>,
}

impl<R> StackTaskResult<R> {
    /// The result, once there is one.
    pub closed spec fn view(&self) -> Option<R> {
        self.value
    }

    pub closed spec fn latch(&self) -> Latch {
        self.latch
    }

    /// Whether the task has run.
    pub open spec fn done(&self) -> bool {
        self.latch()@ == LATCH_READY || self.latch()@ == LATCH_PANIC
    }

    /// The latch says so if and only if there is a result.
    pub open spec fn wf(&self) -> bool {
        &&& self.done() || self.latch()@ == LATCH_WAIT || self.latch()@ == LATCH_SLEEP
        &&& self@ is Some <==> self.latch()@ == LATCH_READY
    }

    /// Takes the result. The task has to be done, or the thread would have to wait first. There
    /// is none if the task has panicked.
    pub fn join(self) -> (result: Option<R>)
        requires
            self.wf(),
            self.done(),
        ensures
            result == self@,
    {
        match self.latch.wait(true) {
            WaitStep::Done { ok } => if ok {
                self.value
            } else {
                None
            },
            _ => None,
        }
    }
}

/// A task that calls `f` once, with the worker that it runs on and with whether it was stolen.
pub struct StackTask<R, F> {
    f: Option<F>,
    result: StackTaskResult<R>,
}

impl<R, F> StackTask<R, F> {
    /// What is to be called, until it is.
    pub closed spec fn f(&self) -> Option<F> {
        self.f
    }

    pub closed spec fn result(&self) -> StackTaskResult<R> {
        self.result
    }

    /// There is something to call as long as the task is not done.
    pub open spec fn wf(&self) -> bool {
        &&& self.result().wf()
        &&& self.f() is Some <==> !self.result().done()
    }

    /// Whether the task was stolen, if this worker runs it.
    pub open spec fn stolen(&self, worker: usize) -> bool {
        self.result().latch().sleeper() != Some(worker)
    }

    /// A task that a worker waits for.
    pub fn new_on_worker(worker: usize, f: F) -> (task: Self)
        ensures
            task.wf(),
            task.f() == Some(f),
            task.result().latch()@ == LATCH_WAIT,
            task.result().latch().sleeper() == Some(worker),
            forall|other: usize| #[trigger] task.stolen(other) <==> other != worker,
    {
        StackTask::with_sleeper(Some(worker), f)
    }

    /// A task that a thread with this sleeper waits for.
    pub fn with_sleeper(sleeper: Option<usize>, f: F) -> (task: Self)
        ensures
            task.wf(),
            task.f() == Some(f),
            task.result().latch()@ == LATCH_WAIT,
            task.result().latch().sleeper() == sleeper,
            forall|other: usize| #[trigger] task.stolen(other) <==> sleeper != Some(other),
    {
        StackTask {
            f: Some(f),
            result: StackTaskResult { latch: Latch::with_sleeper(sleeper), value: None },
        }
    }

    /// Runs the task on a worker with this number, and returns whether the thread that waits for
    /// it has to be woken.
    pub fn run<X, A>(&mut self, worker: &X, number: usize, arg: A) -> (wake: bool) where
        F: FnOnce(&X, bool, A) -> R,

        requires
            old(self).wf(),
            old(self).f() is Some,
            old(self).f()->0.requires((worker, old(self).stolen(number), arg)),
        ensures
            final(self).wf(),
            final(self).result()@ is Some,
            old(self).f()->0.ensures(
                (worker, old(self).stolen(number), arg),
                final(self).result()@->0,
            ),
            forall|stolen: bool|
                (stolen <==> old(self).result().latch().sleeper() != Some(number))
                    ==> #[trigger] old(self).f()->0.ensures(
                    (worker, stolen, arg),
                    final(self).result()@->0,
                ),
            final(self).result().latch().sleeper() == old(self).result().latch().sleeper(),
            wake == (old(self).result().latch()@ == LATCH_SLEEP),
    {
        let f = self.f.take().unwrap();
        let stolen = self.result.latch.stolen_by(number);
        self.result.value = Some(f(worker, stolen, arg));
        self.result.latch.set(true)
    }

    /// What the thread that waits for the task looks at.
    pub fn handle(self) -> (result: StackTaskResult<R>)
        ensures
            result == self.result(),
    {
        self.result
    }
}

/// A task that a worker waits for is stolen by every worker but that one, and a task that a thread
/// outside the pool waits for by every worker. No task is left to two workers.
pub proof fn stolen_by_others<R, F>(task: StackTask<R, F>, one: usize, other: usize)
    ensures
        task.result().latch().sleeper() matches Some(owner) ==> (task.stolen(one) <==> one != owner),
        task.result().latch().sleeper() is None ==> task.stolen(one),
        one != other ==> task.stolen(one) || task.stolen(other),
{
}

} // verus!
