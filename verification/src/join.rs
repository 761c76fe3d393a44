//! Two things at once.

use vstd::prelude::*;

use crate::stack_task::StackTask;

verus! {

/// A worker that work can be shared with.
pub trait Fork: Sized {
    /// Which worker this is.
    spec fn number(&self) -> usize;

    /// The number of workers that there are to share work.
    fn num_workers(&self) -> usize;

    /// Calls both functions, each one once, and returns what they return.
    ///
    /// Each one is handed a worker, which is the one that runs it, and whether it was stolen from
    /// the worker that was to run it; and what it is to work on. The first one is run by this
    /// worker. The second one is stolen if and only if
    /// another one runs it.
    fn join_with<A1: Send, R1: Send, F1, A2: Send, R2: Send, F2>(
        &self,
        a1: A1,
        f1: F1,
        a2: A2,
        f2: F2,
    ) -> (r: (R1, R2)) where
        F1: FnOnce(&Self, bool, A1) -> R1 + Send,
        F2: FnOnce(&Self, bool, A2) -> R2 + Send,

        requires
            f1.requires((self, false, a1)),
            forall|worker: &Self, stolen: bool|
                stolen == (worker.number() != self.number()) ==> #[trigger] f2.requires(
                    (worker, stolen, a2),
                ),
        ensures
            f1.ensures((self, false, a1), r.0),
            exists|worker: &Self, stolen: bool|
                stolen == (worker.number() != self.number()) && #[trigger] f2.ensures(
                    (worker, stolen, a2),
                    r.1,
                ),
    ;
}

/// A worker that is alone: the thread that it runs on.
#[derive(Clone, Copy, Debug)]
pub struct LoneWorker;

impl Fork for LoneWorker {
    open spec fn number(&self) -> usize {
        0
    }

    fn num_workers(&self) -> (n: usize)
        ensures
            n == 1,
    {
        1
    }

    /// The second function is left for others to steal, and as there are none, it is run after
    /// the first.
    fn join_with<A1: Send, R1: Send, F1, A2: Send, R2: Send, F2>(
        &self,
        a1: A1,
        f1: F1,
        a2: A2,
        f2: F2,
    ) -> (r: (R1, R2)) where
        F1: FnOnce(&Self, bool, A1) -> R1 + Send,
        F2: FnOnce(&Self, bool, A2) -> R2 + Send,

        ensures
            f1.ensures((self, false, a1), r.0),
            f2.ensures((self, false, a2), r.1),
    {
        let mut task: StackTask<R2, F2> = StackTask::new_on_worker(0, f2);
        let r1 = f1(self, false, a1);
        task.run(self, 0, a2);
        let r2 = task.handle().join().unwrap();
        let r = (r1, r2);
        assert(f1.ensures((self, false, a1), r.0));
        assert(f2.ensures((self, false, a2), r.1));
        r
    }
}

/// Calls `f` on a worker, and returns what it returns. A thread that is a worker, the `current` one,
/// calls it itself. Any other thread leaves it to a worker, here to `other`, and waits: then it
/// counts as stolen.
pub fn on_worker<X, R: Send, F: FnOnce(&X, bool) -> R + Send>(
    current: Option<&X>,
    other: &X,
    f: F,
) -> (r: R)
    requires
        match current {
            Some(worker) => f.requires((worker, false)),
            None => f.requires((other, true)),
        },
    ensures
        match current {
            Some(worker) => f.ensures((worker, false), r),
            None => f.ensures((other, true), r),
        },
{
    match current {
        Some(worker) => f(worker, false),
        None => {
            let g = move |worker: &X, stolen: bool, _unit: ()| -> (r: R)
                requires
                    f.requires((worker, stolen)),
                ensures
                    f.ensures((worker, stolen), r),
                { f(worker, stolen) };
            let mut task: StackTask<R, _> = StackTask::with_sleeper(None, g);
            task.run(other, 0, ());
            task.handle().join().unwrap()
        },
    }
}

/// Calls both functions on a worker, or on two, and returns what they return.
pub fn join_on_worker<X: Fork, R1: Send, F1, R2: Send, F2>(worker: &X, f1: F1, f2: F2) -> (r: (
    R1,
    R2,
)) where F1: FnOnce(&X, bool) -> R1 + Send, F2: FnOnce(&X, bool) -> R2 + Send
    requires
        f1.requires((worker, false)),
        forall|other: &X, stolen: bool|
            stolen == (other.number() != worker.number()) ==> #[trigger] f2.requires(
                (other, stolen),
            ),
    ensures
        f1.ensures((worker, false), r.0),
        exists|other: &X, stolen: bool|
            stolen == (other.number() != worker.number()) && #[trigger] f2.ensures(
                (other, stolen),
                r.1,
            ),
{
    let g1 = move |worker: &X, stolen: bool, _unit: ()| -> (r: R1)
        requires
            f1.requires((worker, stolen)),
        ensures
            f1.ensures((worker, stolen), r),
        { f1(worker, stolen) };
    let g2 = move |worker: &X, stolen: bool, _unit: ()| -> (r: R2)
        requires
            f2.requires((worker, stolen)),
        ensures
            f2.ensures((worker, stolen), r),
        { f2(worker, stolen) };
    worker.join_with((), g1, (), g2)
}

/// Calls both functions and returns what they return. Neither may rely on the other having been
/// called, or not.
pub fn join<R1: Send, F1, R2: Send, F2>(f1: F1, f2: F2) -> (r: (R1, R2)) where
    F1: FnOnce() -> R1 + Send,
    F2: FnOnce() -> R2 + Send,

    requires
        f1.requires(()),
        f2.requires(()),
    ensures
        f1.ensures((), r.0),
        f2.ensures((), r.1),
{
    let g1 = move |_worker: &LoneWorker, _stolen: bool| -> (r: R1)
        ensures
            f1.ensures((), r),
        { f1() };
    let g2 = move |_worker: &LoneWorker, _stolen: bool| -> (r: R2)
        ensures
            f2.ensures((), r),
        { f2() };
    join_on_worker(&LoneWorker, g1, g2)
}

} // verus!
