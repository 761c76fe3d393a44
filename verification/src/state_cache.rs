//! State that is kept to be used again.

use vstd::prelude::*;

use crate::sti_vec::{fits, grown, room, StiVec};

verus! {

/// What is handed out of a cache, and what stays.
pub open spec fn popped<T>(held: Seq<T>) -> (Option<T>, Seq<T>) {
    if held.len() > 0 {
        (Some(held.last()), held.drop_last())
    } else {
        (None, held)
    }
}

/// What was kept last is handed out first, and leaves the cache as it was before.
pub proof fn last_in_first_out<T>(held: Seq<T>, value: T)
    ensures
        popped(held.push(value)) == (Some(value), held),
        popped(Seq::<T>::empty()) == (None::<T>, Seq::<T>::empty()),
{
    assert(held.push(value).drop_last() =~= held);
}

/// A stack of things to use again.
///
/// It stands for the sequence of what it holds, the next one to hand out last.
#[verifier::reject_recursive_types(T)]
pub struct StateCache<T: Send> {
    buffer: StiVec<T>,
}

impl<T: Send> StateCache<T> {
    pub closed spec fn view(&self) -> Seq<T> {
        self.buffer@
    }

    /// How many things there is room for.
    pub closed spec fn spec_cap(&self) -> nat {
        self.buffer.spec_cap()
    }

    /// An empty cache.
    pub fn new() -> (cache: Self)
        ensures
            cache@ == Seq::<T>::empty(),
            cache.spec_cap() == 0,
    {
        StateCache { buffer: StiVec::new() }
    }

    /// An empty cache with room for `cap` things.
    pub fn with_cap(cap: usize) -> (cache: Self)
        requires
            fits::<T>(cap as int),
        ensures
            cache@ == Seq::<T>::empty(),
            cache.spec_cap() == cap,
    {
        StateCache { buffer: StiVec::with_cap(cap) }
    }

    /// An empty cache with room for one thing for each of `ncpu` processors.
    pub fn with_cap_ncpu(ncpu: usize) -> (cache: Self)
        requires
            fits::<T>(ncpu as int),
        ensures
            cache@ == Seq::<T>::empty(),
            cache.spec_cap() == ncpu,
    {
        StateCache::with_cap(ncpu)
    }

    /// Whether there is room for one more thing, or can be.
    pub fn has_room(&self) -> (yes: bool)
        ensures
            yes == room::<T>(self@.len() as int, self.spec_cap() as int, 1),
    {
        self.buffer.has_room(1)
    }

    /// Keeps a thing.
    pub fn push(&mut self, value: T)
        requires
            room::<T>(old(self)@.len() as int, old(self).spec_cap() as int, 1),
        ensures
            final(self)@ == old(self)@.push(value),
            final(self).spec_cap() == grown::<T>(
                old(self).spec_cap() as int,
                old(self)@.len() + 1int,
            ),
    {
        self.buffer.push(value);
    }

    /// Hands out the thing that was kept last, if there is one.
    pub fn pop(&mut self) -> (value: Option<T>)
        ensures
            (value, final(self)@) == popped(old(self)@),
            match value {
                Some(value) => old(self)@ == final(self)@.push(value),
                None => old(self)@.len() == 0 && final(self)@.len() == 0,
            },
            final(self).spec_cap() == old(self).spec_cap(),
    {
        let value = self.buffer.pop();
        assert(value is Some ==> self@.push(value->0).drop_last() =~= self@);
        value
    }
}

} // verus!
