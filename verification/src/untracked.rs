//! Tasks that nobody waits for.

use vstd::multiset::Multiset;
use vstd::prelude::*;

use crate::lifecycle::Process;
use crate::runtime::accounts::{fresh_is_idle, injected_is_kept, submitted_is_kept};
use crate::runtime::order::{injected_goes_last, submitted_goes_last};
use crate::runtime::{fresh, Pool};
use crate::task::Task;

verus! {

/// The pool after a task was submitted, by the worker that is given, or else from outside the pool.
/// A thread from outside makes the pool if there is none.
pub open spec fn spawned<T>(
    pool: Option<Pool<T>>,
    current: Option<usize>,
    addresses: Seq<usize>,
    task: T,
) -> Pool<T> {
    let present = match pool {
        Some(present) => present,
        None => fresh(addresses),
    };
    match current {
        Some(worker) => present.with_submitted(worker as int, task),
        None => present.with_injected(task),
    }
}

/// Has `f` called some time, on some worker: the worker that is given keeps it until another one
/// steals it, and a thread that is no worker leaves it for all of them.
pub fn spawn_untracked<F: FnOnce() + Send>(
    process: &mut Process<Task<F>>,
    current: Option<usize>,
    addresses: &Vec<usize>,
    f: F,
)
    requires
        old(process).wf(),
        addresses@.len() <= u32::MAX,
        match current {
            Some(worker) => {
                &&& old(process)@ matches Some(pool)
                &&& worker < pool.num_workers()
                &&& 2 * pool.queues[worker as int].len() <= isize::MAX
            },
            None => old(process)@ matches Some(pool) ==> 2 * pool.injected.len() <= isize::MAX,
        },
    ensures
        final(process).wf(),
        exists|task: Task<F>| #[trigger] task@ == f && final(process)@ == Some(
            spawned(old(process)@, current, addresses@, task),
        ),
{
    let task = Task::new(f);
    let runtime = process.get_or_init(addresses);
    runtime.submit_task(current, task);
    assert(task@ == f);
}

/// What is spawned is a task of the pool afterwards, and no other task is gained or lost. From outside
/// it goes behind the others that came from there, and from a worker behind the others of that one.
pub proof fn spawned_is_kept<T>(
    pool: Pool<T>,
    current: Option<usize>,
    addresses: Seq<usize>,
    task: T,
)
    requires
        current matches Some(worker) ==> worker < pool.queues.len(),
    ensures
        spawned(Some(pool), current, addresses, task).tasks() == pool.tasks().insert(task),
        spawned(Some(pool), current, addresses, task).injected == if current is None {
            pool.injected.push(task)
        } else {
            pool.injected
        },
        spawned(Some(pool), current, addresses, task).queues == match current {
            Some(worker) => pool.queues.update(
                worker as int,
                pool.queues[worker as int].push(task),
            ),
            None => pool.queues,
        },
{
    match current {
        Some(worker) => {
            submitted_is_kept(pool, worker as int, task);
            submitted_goes_last(pool, worker as int, task, 0);
        },
        None => {
            injected_is_kept(pool, task);
            injected_goes_last(pool, task, 0);
        },
    }
}

/// The first thing that is spawned from outside makes the pool, with a worker for each address, and is
/// the only task in it.
pub proof fn spawned_makes_the_pool<T>(addresses: Seq<usize>, task: T)
    ensures
        spawned(None, None, addresses, task).queues.len() == addresses.len(),
        spawned(None, None, addresses, task).injected == seq![task],
        spawned(None, None, addresses, task).running == addresses.len(),
        spawned(None, None, addresses, task).tasks() == Multiset::<T>::empty().insert(task),
{
    let pool = fresh::<T>(addresses);
    fresh_is_idle::<T>(addresses, 0);
    injected_is_kept(pool, task);
    injected_goes_last(pool, task, 0);
    assert(pool.injected.push(task) =~= seq![task]);
}

} // verus!
