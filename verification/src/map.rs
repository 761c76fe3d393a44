//! One item out of each item.

use core::mem::MaybeUninit;

use vstd::prelude::*;

use crate::join::{Fork, LoneWorker};
use crate::spliterator::Spliterator;
use crate::splitter::Splitter;
use crate::sti_vec::{fits, grown, room, StiVec};

verus! {

/// A place for a value.
pub trait Slot<U>: Sized {
    /// What is there.
    spec fn held(&self) -> Option<U>;

    /// Puts a value there.
    fn put(&mut self, value: U)
        ensures
            final(self).held() == Some(value),
    ;
}

impl<U> Slot<U> for Option<U> {
    open spec fn held(&self) -> Option<U> {
        *self
    }

    fn put(&mut self, value: U) {
        *self = Some(value);
    }
}

impl<U> Slot<U> for MaybeUninit<U> {
    open spec fn held(&self) -> Option<U> {
        self.as_option()
    }

    fn put(&mut self, value: U) {
        *self = MaybeUninit::new(value);
    }
}

/// A slot holds what is in it: the value of an option, and that of memory that was written.
pub proof fn slots_hold_values<U>(value: U, slot: MaybeUninit<U>)
    ensures
        Some(value).held() == Some(value),
        None::<U>.held() is None,
        slot.held() == slot.as_option(),
{
}

/// Whether the slots hold what `f` makes of the items, in their order.
pub open spec fn mapped<T, U, S: Slot<U>, F: Fn(T) -> U>(
    items: Seq<T>,
    slots: Seq<S>,
    f: F,
) -> bool {
    &&& slots.len() == items.len()
    &&& forall|i: int|
        0 <= i < items.len() ==> #[trigger] slots[i].held() is Some && f.ensures(
            (items[i],),
            slots[i].held()->0,
        )
}

/// Whether `values` are what `f` makes of the items, in their order.
pub open spec fn mapped_to<T, U, F: Fn(T) -> U>(items: Seq<T>, values: Seq<U>, f: F) -> bool {
    &&& values.len() == items.len()
    &&& forall|i: int|
        0 <= i < items.len() ==> f.ensures((#[trigger] items[i],), values[i])
}

/// What becomes of the items does not depend on how they were split among the workers, if `f`
/// makes the same of the same item each time.
pub proof fn mapped_alike<T, U, F: Fn(T) -> U>(items: Seq<T>, one: Seq<U>, other: Seq<U>, f: F)
    requires
        mapped_to(items, one, f),
        mapped_to(items, other, f),
        forall|item: T, u: U, v: U| #[trigger]
            f.ensures((item,), u) && #[trigger] f.ensures((item,), v) ==> u == v,
    ensures
        one == other,
{
    assert forall|i: int| 0 <= i < items.len() implies one[i] == other[i] by {
        let item = items[i];
        assert(f.ensures((item,), one[i]));
        assert(f.ensures((item,), other[i]));
    }
    assert(one =~= other);
}

/// Calls `f` with each item once, and returns what it returns, in the order of the items, in a
/// vector with just enough room.
pub fn map<T: Send, U: Send, I: Spliterator<Item = T> + Send, F: Fn(T) -> U + Send + Sync>(
    iter: I,
    f: F,
) -> (result: StiVec<U>)
    requires
        iter.wf(),
        fits::<U>(iter.items().len() as int),
        forall|i: int| 0 <= i < iter.items().len() ==> f.requires((#[trigger] iter.items()[i],)),
    ensures
        mapped_to(iter.items(), result@, f),
        result@.len() == iter.items().len(),
        forall|i: int|
            0 <= i < iter.items().len() ==> f.ensures((#[trigger] iter.items()[i],), result@[i]),
        result.spec_cap() == iter.items().len(),
{
    map_on(&LoneWorker, iter, f)
}

/// Calls `f` with each item once, on the workers that share work with this one, and returns what
/// it returns, in the order of the items, in a vector with just enough room.
pub fn map_on<
    X: Fork,
    T: Send,
    U: Send,
    I: Spliterator<Item = T> + Send,
    F: Fn(T) -> U + Send + Sync,
>(worker: &X, iter: I, f: F) -> (result: StiVec<U>)
    requires
        iter.wf(),
        fits::<U>(iter.items().len() as int),
        forall|i: int| 0 <= i < iter.items().len() ==> f.requires((#[trigger] iter.items()[i],)),
    ensures
        mapped_to(iter.items(), result@, f),
        result@.len() == iter.items().len(),
        forall|i: int|
            0 <= i < iter.items().len() ==> f.ensures((#[trigger] iter.items()[i],), result@[i]),
        result.spec_cap() == iter.items().len(),
{
    let len: usize = iter.len();
    let mut result = StiVec::with_cap(len);
    map_into_on(worker, &mut result, iter, f);
    result
}

/// Calls `f` with each item once, and adds what it returns at the end of the vector, in the order
/// of the items.
pub fn map_into<T: Send, U: Send, I: Spliterator<Item = T> + Send, F: Fn(T) -> U + Send + Sync>(
    result: &mut StiVec<U>,
    iter: I,
    f: F,
)
    requires
        iter.wf(),
        room::<U>(
            old(result)@.len() as int,
            old(result).spec_cap() as int,
            iter.items().len() as int,
        ),
        forall|i: int| 0 <= i < iter.items().len() ==> f.requires((#[trigger] iter.items()[i],)),
    ensures
        final(result)@.len() == old(result)@.len() + iter.items().len(),
        final(result)@.take(old(result)@.len() as int) == old(result)@,
        mapped_to(iter.items(), final(result)@.skip(old(result)@.len() as int), f),
        forall|i: int|
            0 <= i < old(result)@.len() ==> #[trigger] final(result)@[i] == old(result)@[i],
        forall|i: int|
            0 <= i < iter.items().len() ==> f.ensures(
                (#[trigger] iter.items()[i],),
                final(result)@[old(result)@.len() + i],
            ),
        final(result).spec_cap() == grown::<U>(
            old(result).spec_cap() as int,
            old(result)@.len() + iter.items().len() as int,
        ),
{
    map_into_on(&LoneWorker, result, iter, f)
}

/// Calls `f` with each item once, on the workers that share work with this one, and adds what it
/// returns at the end of the vector, in the order of the items.
pub fn map_into_on<
    X: Fork,
    T: Send,
    U: Send,
    I: Spliterator<Item = T> + Send,
    F: Fn(T) -> U + Send + Sync,
>(worker: &X, result: &mut StiVec<U>, iter: I, f: F)
    requires
        iter.wf(),
        room::<U>(
            old(result)@.len() as int,
            old(result).spec_cap() as int,
            iter.items().len() as int,
        ),
        forall|i: int| 0 <= i < iter.items().len() ==> f.requires((#[trigger] iter.items()[i],)),
    ensures
        final(result)@.len() == old(result)@.len() + iter.items().len(),
        final(result)@.take(old(result)@.len() as int) == old(result)@,
        mapped_to(iter.items(), final(result)@.skip(old(result)@.len() as int), f),
        forall|i: int|
            0 <= i < old(result)@.len() ==> #[trigger] final(result)@[i] == old(result)@[i],
        forall|i: int|
            0 <= i < iter.items().len() ==> f.ensures(
                (#[trigger] iter.items()[i],),
                final(result)@[old(result)@.len() + i],
            ),
        final(result).spec_cap() == grown::<U>(
            old(result).spec_cap() as int,
            old(result)@.len() + iter.items().len() as int,
        ),
{
    let ghost items = iter.items();
    let len: usize = iter.len();
    result.reserve_extra(len);
    let ghost cap = result.spec_cap() as int;
    let mut slots: Vec<Option<U>> = Vec::with_capacity(len);
    while slots.len() < len
        invariant
            slots@.len() <= len,
        decreases len - slots@.len(),
    {
        slots.push(None);
    }
    let splitter = Splitter::new(worker.num_workers());
    map_core_core(worker, false, splitter, iter, slots.as_mut_slice(), &f);
    let ghost filled = slots@;
    let ghost values = Seq::new(filled.len(), |i: int| filled[i]->0);
    assert forall|i: int| 0 <= i < items.len() implies f.ensures(
        (#[trigger] items[i],),
        values[i],
    ) by {
        assert(filled[i].held() is Some);
    }
    for i in 0..len
        invariant
            len == slots@.len(),
            len == filled.len(),
            forall|k: int| i <= k < len ==> slots@[k] == filled[k],
            forall|k: int| 0 <= k < len ==> (#[trigger] filled[k]).held() is Some,
            values == Seq::new(filled.len(), |i: int| filled[i]->0),
            result@ == old(result)@ + values.take(i as int),
            old(result)@.len() + len <= cap,
            result.spec_cap() == cap,
    {
        assert(filled[i as int].held() is Some);
        let value = slots[i].take().unwrap();
        result.push(value);
        assert(values.take(i + 1) =~= values.take(i as int).push(value));
    }
    assert(result@.take(old(result)@.len() as int) =~= old(result)@);
    assert(result@.skip(old(result)@.len() as int) =~= values);
}

/// Calls `f` with each item once, and puts what it returns into the slot of the same number.
pub fn map_core<T: Send, U: Send, I: Spliterator<Item = T> + Send, F: Fn(T) -> U + Send + Sync>(
    iter: I,
    result: &mut [MaybeUninit<U>],
    f: F,
)
    requires
        iter.wf(),
        iter.items().len() == old(result)@.len(),
        forall|i: int| 0 <= i < iter.items().len() ==> f.requires((#[trigger] iter.items()[i],)),
    ensures
        mapped(iter.items(), final(result)@, f),
        final(result)@.len() == iter.items().len(),
        forall|i: int|
            0 <= i < iter.items().len() ==> #[trigger] final(result)@[i].as_option() is Some
                && f.ensures((iter.items()[i],), final(result)@[i].as_option()->0),
{
    let ghost items = iter.items();
    map_core_on(&LoneWorker, iter, result, f);
    assert forall|i: int| 0 <= i < items.len() implies #[trigger] result@[i].as_option() is Some
        && f.ensures((items[i],), result@[i].as_option()->0) by {
        assert(result@[i].held() is Some);
    }
}

/// Calls `f` with each item once, on the workers that share work with this one, and puts what it
/// returns into the slot of the same number.
pub fn map_core_on<
    X: Fork,
    T: Send,
    U: Send,
    S: Slot<U> + Send,
    I: Spliterator<Item = T> + Send,
    F: Fn(T) -> U + Send + Sync,
>(worker: &X, iter: I, result: &mut [S], f: F)
    requires
        iter.wf(),
        iter.items().len() == old(result)@.len(),
        forall|i: int| 0 <= i < iter.items().len() ==> f.requires((#[trigger] iter.items()[i],)),
    ensures
        mapped(iter.items(), final(result)@, f),
        final(result)@.len() == iter.items().len(),
        forall|i: int|
            0 <= i < iter.items().len() ==> #[trigger] final(result)@[i].held() is Some
                && f.ensures((iter.items()[i],), final(result)@[i].held()->0),
{
    let splitter = Splitter::new(worker.num_workers());
    map_core_core(worker, false, splitter, iter, result, &f)
}

/// What is mapped in halves is mapped as a whole.
proof fn lemma_mapped_halves<T, U, S: Slot<U>, F: Fn(T) -> U>(
    lhs: Seq<T>,
    rhs: Seq<T>,
    lhs_slots: Seq<S>,
    rhs_slots: Seq<S>,
    f: F,
)
    requires
        mapped(lhs, lhs_slots, f),
        mapped(rhs, rhs_slots, f),
    ensures
        mapped(lhs + rhs, lhs_slots + rhs_slots, f),
{
    assert forall|i: int| 0 <= i < lhs.len() + rhs.len() implies #[trigger] (lhs_slots
        + rhs_slots)[i].held() is Some && f.ensures(
        ((lhs + rhs)[i],),
        (lhs_slots + rhs_slots)[i].held()->0,
    ) by {
        if i < lhs.len() {
            assert(lhs_slots[i].held() is Some);
        } else {
            assert(rhs_slots[i - lhs.len()].held() is Some);
        }
    }
}

/// Calls `f` with each item once, and puts what it returns into the slot of the same number.
pub fn map_core_core<
    X: Fork,
    T: Send,
    U: Send,
    S: Slot<U> + Send,
    I: Spliterator<Item = T> + Send,
    F: Fn(T) -> U + Send + Sync,
>(worker: &X, stolen: bool, splitter: Splitter, iter: I, result: &mut [S], f: &F)
    requires
        iter.wf(),
        iter.items().len() == old(result)@.len(),
        forall|i: int| 0 <= i < iter.items().len() ==> f.requires((#[trigger] iter.items()[i],)),
    ensures
        mapped(iter.items(), final(result)@, *f),
        final(result)@.len() == iter.items().len(),
        forall|i: int|
            0 <= i < iter.items().len() ==> #[trigger] final(result)@[i].held() is Some
                && f.ensures((iter.items()[i],), final(result)@[i].held()->0),
    decreases iter.items().len(),
{
    let mut splitter = splitter;
    let mut iter = iter;
    let ghost items = iter.items();
    let len: usize = iter.len();
    let workers: Option<usize> = if stolen {
        Some(worker.num_workers())
    } else {
        None
    };
    if splitter.try_split(len, workers) {
        let mid: usize = len / 2;
        let (lhs, rhs) = iter.split(mid);
        let (lhs_result, rhs_result) = result.split_at_mut(mid);
        let ghost lhs_slots = final(lhs_result)@;
        let ghost rhs_slots = final(rhs_result)@;
        let left = move |worker: &X, stolen: bool, result: &mut [S]|
            requires
                old(result)@.len() == lhs.items().len(),
            ensures
                mapped(lhs.items(), final(result)@, *f),
            { map_core_core(worker, stolen, splitter, lhs, result, f) };
        let right = move |worker: &X, stolen: bool, result: &mut [S]|
            requires
                old(result)@.len() == rhs.items().len(),
            ensures
                mapped(rhs.items(), final(result)@, *f),
            { map_core_core(worker, stolen, splitter, rhs, result, f) };
        worker.join_with(lhs_result, left, rhs_result, right);
        assert(mapped(lhs.items(), lhs_slots, *f));
        assert(mapped(rhs.items(), rhs_slots, *f));
        proof {
            lemma_mapped_halves(lhs.items(), rhs.items(), lhs_slots, rhs_slots, *f);
            assert(items =~= lhs.items() + rhs.items());
        }
    } else {
        for i in 0..len
            invariant
                iter.wf(),
                len == items.len(),
                result@.len() == len,
                iter.items() == items.skip(i as int),
                forall|i: int| 0 <= i < items.len() ==> f.requires((#[trigger] items[i],)),
                forall|k: int|
                    0 <= k < i ==> #[trigger] result@[k].held() is Some && f.ensures(
                        (items[k],),
                        result@[k].held()->0,
                    ),
        {
            assert(iter.items().first() == items[i as int]);
            result[i].put(f(iter.next()));
            assert(iter.items() =~= items.skip(i + 1));
        }
    }
}

} // verus!
