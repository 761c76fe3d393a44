//! What becomes of the tasks of a pool: none is lost, and none is found twice.

use vstd::prelude::*;
use vstd::multiset::Multiset;

use crate::hash::fxhash32_usize;
use crate::rng::{scaled, scaled_below, xorshift};
use crate::runtime::{first_victim, fresh, Pool};
use crate::worker::{visited, visits_everybody};

verus! {

/// All tasks of some workers, counted with repetitions.
pub open spec fn queued<T>(queues: Seq<Seq<T>>) -> Multiset<T>
    decreases queues.len(),
{
    if queues.len() == 0 {
        Multiset::empty()
    } else {
        queued(queues.drop_last()).add(queues.last().to_multiset())
    }
}

impl<T> Pool<T> {
    /// All tasks of the pool, counted with repetitions.
    pub open spec fn tasks(self) -> Multiset<T> {
        queued(self.queues).add(self.injected.to_multiset())
    }

    /// There is a sleeper and a generator for each worker, and workers can be numbered by
    /// 32-bit words.
    pub open spec fn shape(self) -> bool {
        &&& self.queues.len() <= u32::MAX
        &&& self.primed.len() == self.queues.len()
        &&& self.seeds.len() == self.queues.len()
    }

    /// The pool after a worker took all tasks that it could find.
    pub open spec fn drained(self, worker: int) -> Self
        decreases self.tasks().len(),
    {
        if self.shape() && 0 <= worker < self.num_workers() {
            let (task, after) = self.found(worker);
            match task {
                Some(task) => {
                    proof {
                        found_is_gone(self, worker);
                        broadcast use vstd::multiset::group_multiset_axioms;

                        assert(after.tasks().insert(task).len() == after.tasks().len() + 1);
                    }
                    after.drained(worker)
                },
                None => after,
            }
        } else {
            self
        }
    }
}

proof fn lemma_queued_update<T>(queues: Seq<Seq<T>>, i: int, queue: Seq<T>)
    requires
        0 <= i < queues.len(),
    ensures
        queued(queues.update(i, queue)).add(queues[i].to_multiset()) =~= queued(queues).add(
            queue.to_multiset(),
        ),
    decreases queues.len(),
{
    let updated = queues.update(i, queue);
    if i == queues.len() - 1 {
        assert(updated.drop_last() =~= queues.drop_last());
    } else {
        assert(updated.drop_last() =~= queues.drop_last().update(i, queue));
        assert(updated.last() == queues.last());
        lemma_queued_update(queues.drop_last(), i, queue);
    }
    let lhs = queued(updated).add(queues[i].to_multiset());
    let rhs = queued(queues).add(queue.to_multiset());
    assert forall|x: T| lhs.count(x) == rhs.count(x) by {
        if i < queues.len() - 1 {
            let init = queues.drop_last();
            let a = queued(init.update(i, queue)).add(init[i].to_multiset());
            let b = queued(init).add(queue.to_multiset());
            assert(a.count(x) == b.count(x));
        }
    }
}

proof fn lemma_queued_empty<T>(queues: Seq<Seq<T>>)
    requires
        forall|i: int| 0 <= i < queues.len() ==> (#[trigger] queues[i]).len() == 0,
    ensures
        queued(queues) =~= Multiset::<T>::empty(),
    decreases queues.len(),
{
    if queues.len() > 0 {
        assert(queues.last() == queues[queues.len() - 1]);
        assert(queues.last() =~= Seq::<T>::empty());
        broadcast use vstd::seq_lib::group_to_multiset_ensures;

        assert(Seq::<T>::empty().to_multiset() =~= Multiset::<T>::empty());
        assert forall|i: int| 0 <= i < queues.drop_last().len() implies (
        #[trigger] queues.drop_last()[i]).len() == 0 by {
            assert(queues.drop_last()[i] == queues[i]);
        }
        lemma_queued_empty(queues.drop_last());
    }
}

/// Waking a worker changes no tasks.
proof fn lemma_one_woken<T>(pool: Pool<T>)
    ensures
        pool.one_woken().queues == pool.queues,
        pool.one_woken().injected == pool.injected,
        pool.one_woken().seeds == pool.seeds,
{
}

/// Injecting a task adds it, and nothing else.
pub proof fn injected_is_kept<T>(pool: Pool<T>, task: T)
    ensures
        pool.with_injected(task).tasks() == pool.tasks().insert(task),
{
    broadcast use vstd::seq_lib::group_to_multiset_ensures;

    lemma_one_woken(Pool { injected: pool.injected.push(task), ..pool });
    assert(pool.with_injected(task).tasks() =~= pool.tasks().insert(task));
}

/// Submitting a task adds it, and nothing else.
pub proof fn submitted_is_kept<T>(pool: Pool<T>, worker: int, task: T)
    requires
        0 <= worker < pool.num_workers(),
    ensures
        pool.with_submitted(worker, task).tasks() == pool.tasks().insert(task),
{
    broadcast use vstd::seq_lib::group_to_multiset_ensures;

    let queue = pool.queues[worker].push(task);
    let with = Pool { queues: pool.queues.update(worker, queue), ..pool };
    lemma_one_woken(with);
    lemma_queued_update(pool.queues, worker, queue);
    assert(with.tasks() =~= pool.tasks().insert(task)) by {
        assert forall|x: T| with.tasks().count(x) == pool.tasks().insert(task).count(x) by {
            let updated = queued(with.queues).add(pool.queues[worker].to_multiset());
            let before = queued(pool.queues).add(queue.to_multiset());
            assert(updated.count(x) == before.count(x));
        }
    }
}

proof fn lemma_taken<T>(pool: Pool<T>, worker: int, queue: Seq<T>, task: T)
    requires
        0 <= worker < pool.num_workers(),
        pool.queues[worker].to_multiset() =~= queue.to_multiset().insert(task),
    ensures
        pool.tasks() == (Pool {
            queues: pool.queues.update(worker, queue),
            ..pool
        }).tasks().insert(task),
{
    let after = Pool { queues: pool.queues.update(worker, queue), ..pool };
    lemma_queued_update(pool.queues, worker, queue);
    assert(pool.tasks() =~= after.tasks().insert(task)) by {
        assert forall|x: T| pool.tasks().count(x) == after.tasks().insert(task).count(x) by {
            let updated = queued(after.queues).add(pool.queues[worker].to_multiset());
            let before = queued(pool.queues).add(queue.to_multiset());
            assert(updated.count(x) == before.count(x));
        }
    }
}

proof fn lemma_first_taken<T>(queue: Seq<T>)
    requires
        queue.len() > 0,
    ensures
        queue.to_multiset() =~= queue.drop_first().to_multiset().insert(queue.first()),
        queue.to_multiset() =~= queue.drop_last().to_multiset().insert(queue.last()),
{
    broadcast use vstd::seq_lib::group_to_multiset_ensures;

    assert(queue.remove(0) =~= queue.drop_first());
    assert(queue.contains(queue[0]));
    assert(queue.drop_last().push(queue.last()) =~= queue);
}

proof fn lemma_victim<T>(queues: Seq<Seq<T>>, first: nat, exclude: nat, i: nat)
    requires
        first < queues.len(),
    ensures
        first_victim(queues, first, exclude, i) matches Some(worker) ==> worker < queues.len()
            && worker != exclude && queues[worker as int].len() > 0,
        first_victim(queues, first, exclude, i) is None ==> forall|j: nat|
            i <= j < queues.len() ==> {
                let worker = #[trigger] visited(first, queues.len(), j);
                worker == exclude || queues[worker as int].len() == 0
            },
    decreases queues.len() - i,
{
    if i < queues.len() {
        lemma_victim(queues, first, exclude, i + 1);
    }
}

/// What a thief gets was there, and is there once less. It gets nothing only if nobody else
/// has anything.
pub proof fn stolen_is_gone<T>(pool: Pool<T>, first: nat, exclude: nat)
    requires
        first < pool.num_workers(),
    ensures
        pool.stolen(first, exclude).1.num_workers() == pool.num_workers(),
        pool.stolen(first, exclude).1.primed == pool.primed,
        pool.stolen(first, exclude).1.seeds == pool.seeds,
        pool.stolen(first, exclude).0 matches Some(task) ==> pool.tasks() == pool.stolen(
            first,
            exclude,
        ).1.tasks().insert(task),
        pool.stolen(first, exclude).0 is None ==> pool.stolen(first, exclude).1 == pool
            && pool.injected.len() == 0 && forall|worker: int|
            0 <= worker < pool.num_workers() && worker != exclude
                ==> (#[trigger] pool.queues[worker]).len() == 0,
{
    broadcast use vstd::seq_lib::group_to_multiset_ensures;

    lemma_victim(pool.queues, first, exclude, 0);
    match pool.victim(first, exclude) {
        Some(worker) => {
            let queue = pool.queues[worker as int];
            lemma_first_taken(queue);
            lemma_taken(pool, worker as int, queue.drop_first(), queue.first());
        },
        None => {
            if pool.injected.len() > 0 {
                lemma_first_taken(pool.injected);
                assert(pool.tasks() =~= pool.without_injected().tasks().insert(
                    pool.injected.first(),
                ));
            } else {
                assert forall|worker: int|
                    0 <= worker < pool.num_workers() && worker != exclude implies (
                #[trigger] pool.queues[worker]).len() == 0 by {
                    let i = visits_everybody(first, pool.num_workers(), worker as nat);
                }
            }
        },
    }
}

/// What a worker finds was there, and is there once less. It finds nothing only if there is
/// nothing in the whole pool.
pub proof fn found_is_gone<T>(pool: Pool<T>, worker: int)
    requires
        pool.shape(),
        0 <= worker < pool.num_workers(),
    ensures
        pool.found(worker).1.shape(),
        pool.found(worker).1.num_workers() == pool.num_workers(),
        pool.found(worker).0 matches Some(task) ==> pool.tasks() == pool.found(
            worker,
        ).1.tasks().insert(task),
        pool.found(worker).0 is None ==> pool.tasks() == Multiset::<T>::empty() && pool.found(
            worker,
        ).1.tasks() == pool.tasks(),
{
    broadcast use vstd::seq_lib::group_to_multiset_ensures;

    let queue = pool.queues[worker];
    if queue.len() > 0 {
        lemma_first_taken(queue);
        lemma_taken(pool, worker, queue.drop_last(), queue.last());
    } else {
        let seed = xorshift(pool.seeds[worker]);
        scaled_below(seed, pool.num_workers() as u32);
        let first = scaled(seed, pool.num_workers() as u32) as nat;
        stolen_is_gone(pool, first, worker as nat);
        let (task, after) = pool.stolen(first, worker as nat);
        assert(pool.found(worker).1.tasks() == after.tasks());
        if task is None {
            assert forall|i: int| 0 <= i < pool.queues.len() implies (
            #[trigger] pool.queues[i]).len() == 0 by {
                if i == worker {
                }
            }
            lemma_queued_empty(pool.queues);
            assert(pool.injected =~= Seq::<T>::empty());
            assert(pool.tasks() =~= Multiset::<T>::empty());
        }
    }
}

proof fn lemma_queued_contains<T>(queues: Seq<Seq<T>>, w: int, i: int)
    requires
        0 <= w < queues.len(),
        0 <= i < queues[w].len(),
    ensures
        queued(queues).contains(queues[w][i]),
    decreases queues.len(),
{
    broadcast use vstd::seq_lib::group_to_multiset_ensures;
    broadcast use vstd::multiset::group_multiset_axioms;

    if w == queues.len() - 1 {
        assert(queues.last().contains(queues[w][i]));
    } else {
        lemma_queued_contains(queues.drop_last(), w, i);
    }
}

/// Every task that a worker has, and every one that came from outside, is a task of the pool.
pub proof fn tasks_of_everybody<T>(pool: Pool<T>)
    ensures
        forall|w: int, i: int|
            0 <= w < pool.queues.len() && 0 <= i < pool.queues[w].len() ==> pool.tasks().contains(
                #[trigger] pool.queues[w][i],
            ),
        forall|i: int|
            0 <= i < pool.injected.len() ==> pool.tasks().contains(#[trigger] pool.injected[i]),
{
    broadcast use vstd::seq_lib::group_to_multiset_ensures;
    broadcast use vstd::multiset::group_multiset_axioms;

    assert forall|w: int, i: int|
        0 <= w < pool.queues.len() && 0 <= i < pool.queues[w].len() implies pool.tasks().contains(
        #[trigger] pool.queues[w][i],
    ) by {
        lemma_queued_contains(pool.queues, w, i);
    }
    assert forall|i: int| 0 <= i < pool.injected.len() implies pool.tasks().contains(
        #[trigger] pool.injected[i],
    ) by {
        assert(pool.injected.contains(pool.injected[i]));
    }
}

/// A pool that was just made has a worker for each address, all of them awake, without a task, and
/// with random numbers of their own. There are no tasks from outside, and nobody terminates it.
pub proof fn fresh_is_idle<T>(addresses: Seq<usize>, w: int)
    ensures
        ({
            let pool = fresh::<T>(addresses);
            &&& pool.queues.len() == addresses.len()
            &&& pool.primed.len() == addresses.len()
            &&& pool.seeds.len() == addresses.len()
            &&& 0 <= w < addresses.len() ==> pool.queues[w].len() == 0 && !pool.primed[w]
                && pool.seeds[w] == fxhash32_usize(addresses[w])
            &&& pool.injected.len() == 0
            &&& pool.running == addresses.len()
            &&& pool.sleeping == 0
            &&& !pool.has_terminator
            &&& !pool.terminating
            &&& !pool.termination_primed
            &&& pool.tasks() == Multiset::<T>::empty()
        }),
{
    broadcast use vstd::seq_lib::group_to_multiset_ensures;

    let pool = fresh::<T>(addresses);
    lemma_queued_empty(pool.queues);
    assert(pool.injected =~= Seq::<T>::empty());
    assert(pool.tasks() =~= Multiset::<T>::empty());
}

/// A worker that takes all tasks that it can find leaves none, and changes nothing but the tasks and
/// its own random numbers.
pub proof fn drained_has_no_tasks<T>(pool: Pool<T>, worker: int)
    requires
        pool.shape(),
        0 <= worker < pool.queues.len(),
    ensures
        ({
            let after = pool.drained(worker);
            &&& after.tasks() == Multiset::<T>::empty()
            &&& after.injected.len() == 0
            &&& after.queues.len() == pool.queues.len()
            &&& forall|w: int| 0 <= w < after.queues.len() ==> (#[trigger] after.queues[w]).len()
                == 0
            &&& after.primed == pool.primed
            &&& after.seeds.len() == pool.seeds.len()
            &&& forall|w: int|
                0 <= w < pool.seeds.len() && w != worker ==> #[trigger] after.seeds[w]
                    == pool.seeds[w]
            &&& after.running == pool.running
            &&& after.sleeping == pool.sleeping
            &&& after.has_terminator == pool.has_terminator
            &&& after.terminating == pool.terminating
            &&& after.termination_primed == pool.termination_primed
        }),
    decreases pool.tasks().len(),
{
    broadcast use vstd::multiset::group_multiset_axioms;

    found_is_gone(pool, worker);
    let (task, next) = pool.found(worker);
    match task {
        Some(task) => {
            assert(next.tasks().insert(task).len() == next.tasks().len() + 1);
            drained_has_no_tasks(next, worker);
        },
        None => {
            tasks_of_everybody(next);
            assert forall|w: int| 0 <= w < next.queues.len() implies (
            #[trigger] next.queues[w]).len() == 0 by {
                if next.queues[w].len() > 0 {
                    assert(next.tasks().contains(next.queues[w][0]));
                }
            }
            if next.injected.len() > 0 {
                assert(next.tasks().contains(next.injected[0]));
            }
        },
    }
}

} // verus!
