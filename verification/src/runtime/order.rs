//! Who is woken, and who gets which task.

use vstd::prelude::*;

use crate::rng::{scaled, scaled_below, xorshift};
use crate::runtime::{first_primed, first_victim, Pool};
use crate::worker::{visited, visits_everybody};

verus! {

proof fn lemma_first_primed(primed: Seq<bool>, i: nat)
    ensures
        match first_primed(primed, i) {
            Some(worker) => {
                &&& i <= worker < primed.len()
                &&& primed[worker as int]
                &&& forall|j: int| i <= j < worker ==> !#[trigger] primed[j]
            },
            None => forall|j: int| i <= j < primed.len() ==> !#[trigger] primed[j],
        },
    decreases primed.len() - i,
{
    if i < primed.len() && !primed[i as int] {
        lemma_first_primed(primed, i + 1);
    }
}

/// Waking a worker means that its sleeper is not primed afterwards. Nothing else changes.
pub proof fn woken_is_awake<T>(pool: Pool<T>, worker: int)
    requires
        0 <= worker < pool.primed.len(),
    ensures
        pool.woken(worker).primed.len() == pool.primed.len(),
        !pool.woken(worker).primed[worker],
        forall|w: int|
            0 <= w < pool.primed.len() && w != worker ==> #[trigger] pool.woken(worker).primed[w]
                == pool.primed[w],
        pool.woken(worker).queues == pool.queues,
        pool.woken(worker).injected == pool.injected,
        pool.woken(worker).seeds == pool.seeds,
        pool.woken(worker).running == pool.running,
        pool.woken(worker).sleeping == pool.sleeping,
        pool.woken(worker).has_terminator == pool.has_terminator,
        pool.woken(worker).terminating == pool.terminating,
        pool.woken(worker).termination_primed == pool.termination_primed,
{
}

/// Waking one worker wakes the first of those whose sleeper is primed, and nobody else.
pub proof fn one_is_woken<T>(pool: Pool<T>, worker: int)
    requires
        0 <= worker < pool.primed.len(),
        pool.primed[worker],
        forall|j: int| 0 <= j < worker ==> !#[trigger] pool.primed[j],
    ensures
        first_primed(pool.primed, 0) == Some(worker as nat),
        ({
            let after = pool.one_woken();
            &&& after.primed == pool.primed.update(worker, false)
            &&& after.queues == pool.queues
            &&& after.injected == pool.injected
            &&& after.seeds == pool.seeds
            &&& after.running == pool.running
            &&& after.sleeping == pool.sleeping
            &&& after.has_terminator == pool.has_terminator
            &&& after.terminating == pool.terminating
            &&& after.termination_primed == pool.termination_primed
        }),
{
    lemma_first_primed(pool.primed, 0);
    let found = first_primed(pool.primed, 0);
    if found is Some && found->0 < worker {
        assert(pool.primed[found->0 as int]);
    }
}

/// Waking one worker wakes nobody only if no sleeper is primed, and then nothing changes.
pub proof fn nobody_to_wake<T>(pool: Pool<T>)
    ensures
        first_primed(pool.primed, 0) is None <==> forall|j: int|
            0 <= j < pool.primed.len() ==> !#[trigger] pool.primed[j],
        first_primed(pool.primed, 0) is None ==> pool.one_woken() == pool,
{
    lemma_first_primed(pool.primed, 0);
    if let Some(worker) = first_primed(pool.primed, 0) {
        assert(pool.primed[worker as int]);
    }
}

/// A task that comes from outside goes behind the others that did. If a worker can be woken, there is
/// one less afterwards: the first of them is woken, and nobody else. If none can be, none is. The
/// tasks of the workers stay as they are.
pub proof fn injected_goes_last<T>(pool: Pool<T>, task: T, worker: int)
    ensures
        ({
            let after = pool.with_injected(task);
            &&& after.injected == pool.injected.push(task)
            &&& after.queues == pool.queues
            &&& 0 <= worker < pool.primed.len() && pool.primed[worker] && (forall|j: int|
                0 <= j < worker ==> !#[trigger] pool.primed[j]) ==> after.primed
                == pool.primed.update(worker, false)
            &&& (forall|j: int| 0 <= j < pool.primed.len() ==> !#[trigger] pool.primed[j])
                ==> after.primed == pool.primed
            &&& after.seeds == pool.seeds
            &&& after.running == pool.running
            &&& after.sleeping == pool.sleeping
            &&& after.has_terminator == pool.has_terminator
            &&& after.terminating == pool.terminating
            &&& after.termination_primed == pool.termination_primed
        }),
{
    let with = Pool { injected: pool.injected.push(task), ..pool };
    nobody_to_wake(with);
    if 0 <= worker < pool.primed.len() && pool.primed[worker] && (forall|j: int|
        0 <= j < worker ==> !#[trigger] pool.primed[j]) {
        one_is_woken(with, worker);
    }
}

/// A task that a worker submits goes behind the others that this worker has. Nobody else's tasks
/// change. If the worker has others and somebody sleeps, the first worker is woken that can be, if
/// any can. Otherwise nobody is.
pub proof fn submitted_goes_last<T>(pool: Pool<T>, submitter: int, task: T, worker: int)
    requires
        0 <= submitter < pool.queues.len(),
    ensures
        ({
            let after = pool.with_submitted(submitter, task);
            &&& after.queues == pool.queues.update(submitter, pool.queues[submitter].push(task))
            &&& after.injected == pool.injected
            &&& pool.queues[submitter].len() > 0 && pool.sleeping > 0 && 0 <= worker
                < pool.primed.len() && pool.primed[worker] && (forall|j: int|
                0 <= j < worker ==> !#[trigger] pool.primed[j]) ==> after.primed
                == pool.primed.update(worker, false)
            &&& pool.queues[submitter].len() == 0 || pool.sleeping == 0 || (forall|j: int|
                0 <= j < pool.primed.len() ==> !#[trigger] pool.primed[j]) ==> after.primed
                == pool.primed
            &&& after.seeds == pool.seeds
            &&& after.running == pool.running
            &&& after.sleeping == pool.sleeping
            &&& after.has_terminator == pool.has_terminator
            &&& after.terminating == pool.terminating
            &&& after.termination_primed == pool.termination_primed
        }),
{
    let queue = pool.queues[submitter].push(task);
    let with = Pool { queues: pool.queues.update(submitter, queue), ..pool };
    nobody_to_wake(with);
    if 0 <= worker < pool.primed.len() && pool.primed[worker] && (forall|j: int|
        0 <= j < worker ==> !#[trigger] pool.primed[j]) {
        one_is_woken(with, worker);
    }
}

proof fn lemma_first_victim<T>(queues: Seq<Seq<T>>, first: nat, exclude: nat, i: nat)
    requires
        first < queues.len(),
    ensures
        match first_victim(queues, first, exclude, i) {
            Some(worker) => exists|k: nat|
                {
                    &&& i <= k < queues.len()
                    &&& #[trigger] visited(first, queues.len(), k) == worker
                    &&& worker < queues.len()
                    &&& worker != exclude
                    &&& queues[worker as int].len() > 0
                    &&& forall|j: nat|
                        i <= j < k ==> {
                            let other = #[trigger] visited(first, queues.len(), j);
                            other == exclude || queues[other as int].len() == 0
                        }
                },
            None => forall|j: nat|
                i <= j < queues.len() ==> {
                    let other = #[trigger] visited(first, queues.len(), j);
                    other == exclude || queues[other as int].len() == 0
                },
        },
    decreases queues.len() - i,
{
    if i < queues.len() {
        let worker = visited(first, queues.len(), i);
        assert(worker < queues.len()) by {
            vstd::arithmetic::div_mod::lemma_mod_bound((first + i) as int, queues.len() as int);
        }
        if !(worker != exclude && queues[worker as int].len() > 0) {
            lemma_first_victim(queues, first, exclude, i + 1);
            if let Some(victim) = first_victim(queues, first, exclude, i + 1) {
                let k = choose|k: nat|
                    {
                        &&& i + 1 <= k < queues.len()
                        &&& #[trigger] visited(first, queues.len(), k) == victim
                        &&& victim < queues.len()
                        &&& victim != exclude
                        &&& queues[victim as int].len() > 0
                        &&& forall|j: nat|
                            i + 1 <= j < k ==> {
                                let other = #[trigger] visited(first, queues.len(), j);
                                other == exclude || queues[other as int].len() == 0
                            }
                    };
                assert(visited(first, queues.len(), k) == victim);
            }
        } else {
            assert(visited(first, queues.len(), i) == worker);
        }
    }
}

/// A thief takes the oldest task of its victim, and leaves it the others. Its victim is the first one
/// on its round, from `first` on, that has a task and is not the thief itself. Nobody else's tasks
/// change, and neither do those that came from outside.
pub proof fn thief_takes_the_oldest<T>(pool: Pool<T>, first: nat, exclude: nat, victim: int, k: nat)
    requires
        first < pool.queues.len(),
        k < pool.queues.len(),
        victim == visited(first, pool.queues.len(), k),
        victim != exclude,
        pool.queues[victim].len() > 0,
        forall|j: nat|
            j < k ==> {
                let other = #[trigger] visited(first, pool.queues.len(), j);
                other == exclude || pool.queues[other as int].len() == 0
            },
    ensures
        pool.stolen(first, exclude).0 == Some(pool.queues[victim][0]),
        pool.stolen(first, exclude).1.queues[victim] == pool.queues[victim].skip(1),
        forall|w: int|
            0 <= w < pool.queues.len() && w != victim ==> #[trigger] pool.stolen(
                first,
                exclude,
            ).1.queues[w] == pool.queues[w],
        pool.stolen(first, exclude).1.injected == pool.injected,
        pool.stolen(first, exclude).1.seeds == pool.seeds,
        pool.stolen(first, exclude).1.queues.len() == pool.queues.len(),
        pool.stolen(first, exclude).1.primed == pool.primed,
        pool.stolen(first, exclude).1.running == pool.running,
        pool.stolen(first, exclude).1.sleeping == pool.sleeping,
        pool.stolen(first, exclude).1.has_terminator == pool.has_terminator,
        pool.stolen(first, exclude).1.terminating == pool.terminating,
        pool.stolen(first, exclude).1.termination_primed == pool.termination_primed,
{
    let n = pool.queues.len();
    lemma_first_victim(pool.queues, first, exclude, 0);
    assert(0 <= victim < n) by {
        vstd::arithmetic::div_mod::lemma_mod_bound((first + k) as int, n as int);
    }
    match pool.victim(first, exclude) {
        Some(worker) => {
            let m = choose|m: nat|
                {
                    &&& 0 <= m < n
                    &&& #[trigger] visited(first, n, m) == worker
                    &&& worker < n
                    &&& worker != exclude
                    &&& pool.queues[worker as int].len() > 0
                    &&& forall|j: nat|
                        0 <= j < m ==> {
                            let other = #[trigger] visited(first, n, j);
                            other == exclude || pool.queues[other as int].len() == 0
                        }
                };
            if m < k {
                assert(visited(first, n, m) == worker);
            }
            if k < m {
                assert(visited(first, n, k) == victim);
            }
            assert(worker == victim);
        },
        None => {
            assert(visited(first, n, k) == victim);
        },
    }
    assert(pool.queues[victim].drop_first() =~= pool.queues[victim].skip(1));
}

/// A thief whose victim is the only worker with tasks gets what that one submitted first of those
/// that it still has, wherever the round starts.
pub proof fn only_victim<T>(pool: Pool<T>, first: nat, exclude: nat, victim: int)
    requires
        first < pool.queues.len(),
        0 <= victim < pool.queues.len(),
        victim != exclude,
        pool.queues[victim].len() > 0,
        forall|w: int|
            0 <= w < pool.queues.len() && w != victim ==> (#[trigger] pool.queues[w]).len() == 0,
    ensures
        pool.stolen(first, exclude).0 == Some(pool.queues[victim][0]),
        pool.stolen(first, exclude).1.queues[victim] == pool.queues[victim].skip(1),
        pool.stolen(first, exclude).1.injected == pool.injected,
{
    let n = pool.queues.len();
    let k = visits_everybody(first, n, victim as nat);
    assert forall|j: nat| j < k implies {
        let other = #[trigger] visited(first, n, j);
        other == exclude || pool.queues[other as int].len() == 0
    } by {
        crate::worker::visits_once(first, n, j, k);
        vstd::arithmetic::div_mod::lemma_mod_bound((first + j) as int, n as int);
    }
    thief_takes_the_oldest(pool, first, exclude, victim, k);
}

/// Tasks from outside are handed out in the order in which they came, to a thief that finds no task
/// with any other worker.
pub proof fn outside_in_order<T>(pool: Pool<T>, first: nat, exclude: nat)
    requires
        first < pool.queues.len() || pool.queues.len() == 0,
        forall|w: int|
            0 <= w < pool.queues.len() && w != exclude ==> (#[trigger] pool.queues[w]).len() == 0,
    ensures
        pool.injected.len() > 0 ==> pool.stolen(first, exclude).0 == Some(pool.injected[0])
            && pool.stolen(first, exclude).1.injected == pool.injected.skip(1),
        pool.injected.len() == 0 ==> pool.stolen(first, exclude) == (None::<T>, pool),
        pool.stolen(first, exclude).1.queues == pool.queues,
        pool.stolen(first, exclude).1.seeds == pool.seeds,
        pool.stolen(first, exclude).1.queues.len() == pool.queues.len(),
        pool.stolen(first, exclude).1.primed == pool.primed,
        pool.stolen(first, exclude).1.running == pool.running,
        pool.stolen(first, exclude).1.sleeping == pool.sleeping,
        pool.stolen(first, exclude).1.has_terminator == pool.has_terminator,
        pool.stolen(first, exclude).1.terminating == pool.terminating,
        pool.stolen(first, exclude).1.termination_primed == pool.termination_primed,
{
    if pool.queues.len() > 0 {
        lemma_first_victim(pool.queues, first, exclude, 0);
    }
    if pool.injected.len() > 0 {
        assert(pool.injected.drop_first() =~= pool.injected.skip(1));
    }
}

/// A worker takes its own newest task before it looks anywhere else, and leaves all others where they
/// are.
pub proof fn own_newest_first<T>(pool: Pool<T>, worker: int)
    requires
        0 <= worker < pool.queues.len(),
        pool.queues[worker].len() > 0,
    ensures
        pool.found(worker).0 == Some(pool.queues[worker][pool.queues[worker].len() - 1]),
        pool.found(worker).1.queues[worker] == pool.queues[worker].take(
            pool.queues[worker].len() - 1,
        ),
        forall|w: int|
            0 <= w < pool.queues.len() && w != worker ==> #[trigger] pool.found(worker).1.queues[w]
                == pool.queues[w],
        pool.found(worker).1.injected == pool.injected,
        pool.found(worker).1.seeds == pool.seeds,
        pool.found(worker).1.queues.len() == pool.queues.len(),
        pool.found(worker).1.primed == pool.primed,
        pool.found(worker).1.running == pool.running,
        pool.found(worker).1.sleeping == pool.sleeping,
        pool.found(worker).1.has_terminator == pool.has_terminator,
        pool.found(worker).1.terminating == pool.terminating,
        pool.found(worker).1.termination_primed == pool.termination_primed,
{
    assert(pool.queues[worker].drop_last() =~= pool.queues[worker].take(
        pool.queues[worker].len() - 1,
    ));
}

/// A worker without tasks of its own finds what a thief gets, on a round that starts where its next
/// random number says. The other workers' random numbers stay as they are.
pub proof fn otherwise_steals<T>(pool: Pool<T>, worker: int)
    requires
        0 <= worker < pool.queues.len() <= u32::MAX,
        pool.seeds.len() == pool.queues.len(),
        pool.queues[worker].len() == 0,
    ensures
        ({
            let seed = xorshift(pool.seeds[worker]);
            let first = scaled(seed, pool.queues.len() as u32) as nat;
            let (task, after) = pool.stolen(first, worker as nat);
            &&& first < pool.queues.len()
            &&& pool.found(worker).0 == task
            &&& pool.found(worker).1.queues == after.queues
            &&& pool.found(worker).1.injected == after.injected
            &&& pool.found(worker).1.seeds.len() == pool.seeds.len()
            &&& pool.found(worker).1.seeds[worker] == seed
            &&& forall|w: int|
                0 <= w < pool.queues.len() && w != worker ==> #[trigger] pool.found(
                    worker,
                ).1.seeds[w] == after.seeds[w]
            &&& pool.found(worker).1.primed == after.primed
            &&& pool.found(worker).1.running == after.running
            &&& pool.found(worker).1.sleeping == after.sleeping
            &&& pool.found(worker).1.has_terminator == after.has_terminator
            &&& pool.found(worker).1.terminating == after.terminating
            &&& pool.found(worker).1.termination_primed == after.termination_primed
        }),
{
    scaled_below(xorshift(pool.seeds[worker]), pool.queues.len() as u32);
}

/// Tasks from outside are found in the order in which they came: with no other task in the pool, two
/// searches, by any two workers, find the first one and then the second one.
pub proof fn first_come_first_served<T>(pool: Pool<T>, one: int, other: int)
    requires
        0 <= one < pool.queues.len() <= u32::MAX,
        0 <= other < pool.queues.len(),
        pool.seeds.len() == pool.queues.len(),
        forall|w: int| 0 <= w < pool.queues.len() ==> (#[trigger] pool.queues[w]).len() == 0,
        pool.injected.len() >= 2,
    ensures
        pool.found(one).0 == Some(pool.injected[0]),
        pool.found(one).1.found(other).0 == Some(pool.injected[1]),
        pool.found(one).1.found(other).1.injected == pool.injected.skip(2),
{
    otherwise_steals(pool, one);
    let seed = xorshift(pool.seeds[one]);
    outside_in_order(pool, scaled(seed, pool.queues.len() as u32) as nat, one as nat);
    let after = pool.found(one).1;
    otherwise_steals(after, other);
    let seed = xorshift(after.seeds[other]);
    outside_in_order(after, scaled(seed, after.queues.len() as u32) as nat, other as nat);
    assert(pool.injected.skip(1).skip(1) =~= pool.injected.skip(2));
}

} // verus!
