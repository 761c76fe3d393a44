//! Iterators over vectors.

use vstd::prelude::*;

use crate::spliterator::slice::{Spliter, SpliterMut};
use crate::spliterator::{IntoSpliterator, Spliterator};
use crate::sti_vec::StiVec;

verus! {

impl<'a, T> IntoSpliterator for &'a StiVec<T> {
    type I = Spliter<'a, T>;

    type Item = &'a T;

    /// The `i`-th item refers to the `i`-th element of the vector, and there are no others.
    fn into_spliterator(self) -> (iter: Self::I)
        ensures
            iter.inner@ == self@,
            iter.items().len() == self@.len(),
            forall|i: int| 0 <= i < self@.len() ==> *(#[trigger] iter.items()[i]) == self@[i],
    {
        self.as_slice().into_spliterator()
    }
}

impl<'a, T> IntoSpliterator for &'a mut StiVec<T> {
    type I = SpliterMut<'a, T>;

    type Item = &'a mut T;

    /// The `i`-th item is the `i`-th element of the vector, now and when all is done.
    fn into_spliterator(self) -> (iter: Self::I)
        ensures
            iter.items().len() == old(self)@.len(),
            final(self)@.len() == old(self)@.len(),
            final(self).spec_cap() == old(self).spec_cap(),
            forall|i: int|
                0 <= i < old(self)@.len() ==> *(#[trigger] iter.items()[i]) == old(self)@[i]
                    && *final(iter.items()[i]) == final(self)@[i],
    {
        self.as_slice_mut().into_spliterator()
    }
}

} // verus!
