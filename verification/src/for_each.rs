//! The same for each item.

use vstd::prelude::*;

use crate::join::{join_on_worker, Fork, LoneWorker};
use crate::spliterator::Spliterator;
use crate::splitter::Splitter;

verus! {

/// Calls `f` with each item once, in no particular order.
pub fn for_each<T: Send, I: Spliterator<Item = T> + Send, F: Fn(T) + Send + Sync>(iter: I, f: F)
    requires
        iter.wf(),
        forall|i: int| 0 <= i < iter.items().len() ==> f.requires((#[trigger] iter.items()[i],)),
    ensures
        forall|i: int|
            0 <= i < iter.items().len() ==> f.ensures((#[trigger] iter.items()[i],), ()),
{
    for_each_on(&LoneWorker, iter, f)
}

/// Calls `f` with each item once, on the workers that share work with this one.
pub fn for_each_on<X: Fork, T: Send, I: Spliterator<Item = T> + Send, F: Fn(T) + Send + Sync>(
    worker: &X,
    iter: I,
    f: F,
)
    requires
        iter.wf(),
        forall|i: int| 0 <= i < iter.items().len() ==> f.requires((#[trigger] iter.items()[i],)),
    ensures
        forall|i: int|
            0 <= i < iter.items().len() ==> f.ensures((#[trigger] iter.items()[i],), ()),
{
    let splitter = Splitter::new(worker.num_workers());
    for_each_core(worker, false, splitter, iter, &f)
}

/// Calls `f` with each item once. The items are split among the workers as `splitter` says.
pub fn for_each_core<X: Fork, T: Send, I: Spliterator<Item = T> + Send, F: Fn(T) + Send + Sync>(
    worker: &X,
    stolen: bool,
    splitter: Splitter,
    iter: I,
    f: &F,
)
    requires
        iter.wf(),
        forall|i: int| 0 <= i < iter.items().len() ==> f.requires((#[trigger] iter.items()[i],)),
    ensures
        forall|i: int|
            0 <= i < iter.items().len() ==> f.ensures((#[trigger] iter.items()[i],), ()),
    decreases iter.items().len(),
{
    let mut splitter = splitter;
    let mut iter = iter;
    let ghost items = iter.items();
    let len: usize = iter.len();
    let workers: Option<usize> = if stolen {
        Some(worker.num_workers())
    } else {
        None
    };
    if splitter.try_split(len, workers) {
        let mid: usize = len / 2;
        let (lhs, rhs) = iter.split(mid);
        let left = move |worker: &X, stolen: bool|
            ensures
                forall|i: int|
                    0 <= i < lhs.items().len() ==> f.ensures((#[trigger] lhs.items()[i],), ()),
            { for_each_core(worker, stolen, splitter, lhs, f) };
        let right = move |worker: &X, stolen: bool|
            ensures
                forall|i: int|
                    0 <= i < rhs.items().len() ==> f.ensures((#[trigger] rhs.items()[i],), ()),
            { for_each_core(worker, stolen, splitter, rhs, f) };
        join_on_worker(worker, left, right);
        assert forall|i: int| 0 <= i < items.len() implies f.ensures(
            (#[trigger] items[i],),
            (),
        ) by {
            if i < mid {
                assert(items[i] == lhs.items()[i]);
            } else {
                assert(items[i] == rhs.items()[i - mid]);
            }
        }
    } else {
        for i in 0..len
            invariant
                iter.wf(),
                len == items.len(),
                iter.items() == items.skip(i as int),
                forall|i: int| 0 <= i < items.len() ==> f.requires((#[trigger] items[i],)),
                forall|k: int| 0 <= k < i ==> f.ensures((#[trigger] items[k],), ()),
        {
            assert(iter.items().first() == items[i as int]);
            f(iter.next());
            assert(iter.items() =~= items.skip(i + 1));
        }
    }
}

} // verus!
