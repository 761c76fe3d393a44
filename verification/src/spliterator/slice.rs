//! Iterators over slices.

use vstd::prelude::*;

use crate::spliterator::{IntoSpliterator, Spliterator};

verus! {

/// An iterator over references to the elements of a slice.
pub struct Spliter<'a, T> {
    pub inner: &'a [T],
}

impl<'a, T> Spliterator for Spliter<'a, T> {
    type Item = &'a T;

    open spec fn wf(&self) -> bool {
        true
    }

    open spec fn items(&self) -> Seq<Self::Item> {
        Seq::new(self.inner@.len(), |i: int| &self.inner@[i])
    }

    fn len(&self) -> (n: usize) {
        self.inner.len()
    }

    fn split(self, at: usize) -> (parts: (Self, Self)) {
        let (lhs, rhs) = self.inner.split_at(at);
        let parts = (Spliter { inner: lhs }, Spliter { inner: rhs });
        assert(parts.0.items() =~= self.items().take(at as int));
        assert(parts.1.items() =~= self.items().skip(at as int));
        parts
    }

    fn next(&mut self) -> (item: Self::Item) {
        let (first, rest) = self.inner.split_at(1);
        self.inner = rest;
        assert(self.items() =~= old(self).items().skip(1));
        &first[0]
    }
}

impl<'a, T> IntoSpliterator for &'a [T] {
    type I = Spliter<'a, T>;

    type Item = &'a T;

    /// The `i`-th item refers to the `i`-th element of the slice, and there are no others.
    fn into_spliterator(self) -> (iter: Self::I)
        ensures
            iter.inner == self,
            iter.items().len() == self@.len(),
            forall|i: int| 0 <= i < self@.len() ==> *(#[trigger] iter.items()[i]) == self@[i],
    {
        Spliter { inner: self }
    }
}

/// An iterator over mutable references to the elements of a slice.
pub struct SpliterMut<'a, T> {
    /// The references that are left, the next one last.
    inner: Vec<&'a mut T>,
}

impl<'a, T> Spliterator for SpliterMut<'a, T> {
    type Item = &'a mut T;

    open spec fn wf(&self) -> bool {
        true
    }

    closed spec fn items(&self) -> Seq<Self::Item> {
        self.inner@.reverse()
    }

    fn len(&self) -> (n: usize) {
        self.inner.len()
    }

    fn split(self, at: usize) -> (parts: (Self, Self)) {
        let mut rest: Vec<&'a mut T> = self.inner;
        let lhs_end: usize = rest.len() - at;
        let lhs: Vec<&'a mut T> = rest.split_off(lhs_end);
        (SpliterMut { inner: lhs }, SpliterMut { inner: rest })
    }

    fn next(&mut self) -> (item: Self::Item) {
        assert(self.inner@.drop_last().reverse() =~= self.items().skip(1));
        self.inner.pop().unwrap()
    }
}

impl<'a, T> IntoSpliterator for &'a mut [T] {
    type I = SpliterMut<'a, T>;

    type Item = &'a mut T;

    /// The `i`-th item is the `i`-th element of the slice, now and when all is done.
    fn into_spliterator(self) -> (iter: Self::I)
        ensures
            iter.items().len() == old(self)@.len(),
            final(self)@.len() == old(self)@.len(),
            forall|i: int|
                0 <= i < old(self)@.len() ==> *(#[trigger] iter.items()[i]) == old(self)@[i]
                    && *final(iter.items()[i]) == final(self)@[i],
    {
        let ghost elements = self@;
        let mut rest = self;
        let mut inner: Vec<&'a mut T> = Vec::with_capacity(rest.len());
        while rest.len() > 0
            invariant
                elements.len() == rest@.len() + inner@.len(),
                rest@ == elements.take(rest@.len() as int),
                forall|i: int|
                    0 <= i < inner@.len() ==> *(#[trigger] inner@[i]) == elements[elements.len() - 1
                        - i],
                final(self)@ =~= final(rest)@ + Seq::new(
                    inner@.len(),
                    |i: int| *final(inner@[inner@.len() - 1 - i]),
                ),
            decreases rest@.len(),
        {
            let at: usize = rest.len() - 1;
            let (front, back) = rest.split_at_mut(at);
            inner.push(back.first_mut().unwrap());
            rest = front;
        }
        SpliterMut { inner }
    }
}

/// The iterator over a slice has an item for each element, in their order, whatever is left of the
/// slice, and is sound.
pub proof fn items_are_elements<'a, T>(iter: Spliter<'a, T>, i: int)
    ensures
        iter.wf(),
        iter.items().len() == iter.inner@.len(),
        0 <= i < iter.inner@.len() ==> *iter.items()[i] == iter.inner@[i],
{
}

} // verus!
