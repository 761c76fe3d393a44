//! Iterators that know how many items they have left, and that can be split in two.

pub mod slice;
pub mod vec;

use vstd::prelude::*;

verus! {

/// An iterator that can be split.
///
/// It stands for the sequence of the items that it has left.
pub trait Spliterator: Sized {
    type Item;

    /// Whether the iterator is sound.
    spec fn wf(&self) -> bool;

    /// The items that are left, in their order.
    spec fn items(&self) -> Seq<Self::Item>;

    /// The number of items that are left.
    fn len(&self) -> (n: usize)
        requires
            self.wf(),
        ensures
            n == self.items().len(),
    ;

    /// Splits the iterator in two: one for the first `at` items, and one for the others.
    fn split(self, at: usize) -> (parts: (Self, Self))
        requires
            self.wf(),
            at <= self.items().len(),
        ensures
            parts.0.wf(),
            parts.1.wf(),
            parts.0.items() == self.items().take(at as int),
            parts.1.items() == self.items().skip(at as int),
    ;

    /// Takes the next item. There has to be one.
    fn next(&mut self) -> (item: Self::Item)
        requires
            old(self).wf(),
            old(self).items().len() > 0,
        ensures
            final(self).wf(),
            item == old(self).items().first(),
            final(self).items() == old(self).items().skip(1),
    ;
}

/// A split loses no item, and keeps their order.
pub proof fn split_keeps_items<I: Spliterator>(whole: I, parts: (I, I), at: int)
    requires
        0 <= at <= whole.items().len(),
        parts.0.items() == whole.items().take(at),
        parts.1.items() == whole.items().skip(at),
    ensures
        parts.0.items() + parts.1.items() == whole.items(),
{
}

/// What every iterator that can be split can be made into.
pub trait SpliteratorExt: Spliterator {
    /// An iterator over the same items.
    fn copied<'a, T>(self) -> (iter: Copied<Self>) where
        T: 'a,
        Self: Spliterator<Item = &'a T>,

        ensures
            iter.inner == self,
    ;

    /// An iterator over the items and their numbers, from zero on.
    fn enumerate(self) -> (iter: Enumerate<Self>)
        ensures
            iter.idx == 0,
            iter.inner == self,
    ;

    /// An iterator over the pairs of items of two that have the same number of them.
    fn zip_exact<I2: Spliterator>(self, other: I2) -> (iter: Zip<Self, I2>)
        requires
            self.wf(),
            other.wf(),
            self.items().len() == other.items().len(),
        ensures
            iter.i1 == self,
            iter.i2 == other,
    ;
}

impl<I: Spliterator> SpliteratorExt for I {
    fn copied<'a, T>(self) -> (iter: Copied<Self>) where
        T: 'a,
        Self: Spliterator<Item = &'a T>,
    {
        Copied { inner: self }
    }

    fn enumerate(self) -> (iter: Enumerate<Self>) {
        Enumerate { idx: 0, inner: self }
    }

    fn zip_exact<I2: Spliterator>(self, other: I2) -> (iter: Zip<Self, I2>) {
        Zip { i1: self, i2: other }
    }
}

/// What can be turned into an iterator that can be split.
pub trait IntoSpliterator: Sized {
    type I: Spliterator<Item = Self::Item>;

    type Item;

    fn into_spliterator(self) -> (iter: Self::I)
        ensures
            iter.wf(),
    ;
}

/// What can be looked at through an iterator that can be split.
pub trait IntoSpliteratorRef<'a> {
    type I: Spliterator + 'a;

    fn spliter(&'a self) -> (iter: Self::I)
        ensures
            iter.wf(),
    ;
}

impl<'a, T: ?Sized + 'a> IntoSpliteratorRef<'a> for T where &'a T: IntoSpliterator {
    type I = <&'a T as IntoSpliterator>::I;

    fn spliter(&'a self) -> (iter: Self::I)
        ensures
            call_ensures(<&'a T as IntoSpliterator>::into_spliterator, (self,), iter),
    {
        IntoSpliterator::into_spliterator(self)
    }
}

/// What can be changed through an iterator that can be split.
pub trait IntoSpliteratorRefMut<'a> {
    type I: Spliterator + 'a;

    fn spliter_mut(&'a mut self) -> (iter: Self::I)
        ensures
            iter.wf(),
    ;
}

impl<'a, T: ?Sized + 'a> IntoSpliteratorRefMut<'a> for T where &'a mut T: IntoSpliterator {
    type I = <&'a mut T as IntoSpliterator>::I;

    fn spliter_mut(&'a mut self) -> (iter: Self::I)
        ensures
            call_ensures(<&'a mut T as IntoSpliterator>::into_spliterator, (self,), iter),
    {
        IntoSpliterator::into_spliterator(self)
    }
}

/// See [`SpliteratorExt::copied`].
#[derive(Clone, Copy, Debug)]
pub struct Copied<I> {
    pub inner: I,
}

impl<I: Spliterator> Spliterator for Copied<I> {
    type Item = I::Item;

    open spec fn wf(&self) -> bool {
        self.inner.wf()
    }

    open spec fn items(&self) -> Seq<Self::Item> {
        self.inner.items()
    }

    fn len(&self) -> (n: usize) {
        self.inner.len()
    }

    fn split(self, at: usize) -> (parts: (Self, Self)) {
        let (lhs, rhs) = self.inner.split(at);
        (Copied { inner: lhs }, Copied { inner: rhs })
    }

    fn next(&mut self) -> (item: Self::Item) {
        self.inner.next()
    }
}

/// See [`SpliteratorExt::enumerate`].
#[derive(Clone, Copy, Debug)]
pub struct Enumerate<I> {
    pub idx: usize,
    pub inner: I,
}

impl<I: Spliterator> Spliterator for Enumerate<I> {
    type Item = (usize, I::Item);

    /// All items can be numbered.
    open spec fn wf(&self) -> bool {
        self.inner.wf() && self.idx + self.inner.items().len() <= usize::MAX
    }

    open spec fn items(&self) -> Seq<Self::Item> {
        Seq::new(
            self.inner.items().len(),
            |i: int| ((self.idx + i) as usize, self.inner.items()[i]),
        )
    }

    fn len(&self) -> (n: usize) {
        self.inner.len()
    }

    fn split(self, at: usize) -> (parts: (Self, Self))
        ensures
            parts.0.idx == self.idx,
            parts.1.idx == self.idx + at,
    {
        let (lhs, rhs) = self.inner.split(at);
        let parts = (
            Enumerate { idx: self.idx, inner: lhs },
            Enumerate { idx: self.idx + at, inner: rhs },
        );
        assert(parts.0.items() =~= self.items().take(at as int));
        assert(parts.1.items() =~= self.items().skip(at as int));
        parts
    }

    fn next(&mut self) -> (item: Self::Item) {
        let idx: usize = self.idx;
        self.idx = idx + 1;
        let item = (idx, self.inner.next());
        assert(self.items() =~= old(self).items().skip(1));
        item
    }
}

/// See [`SpliteratorExt::zip_exact`].
#[derive(Clone, Copy, Debug)]
pub struct Zip<I1, I2> {
    pub i1: I1,
    pub i2: I2,
}

impl<I1: Spliterator, I2: Spliterator> Spliterator for Zip<I1, I2> {
    type Item = (I1::Item, I2::Item);

    /// There is a partner for each item of the first.
    open spec fn wf(&self) -> bool {
        self.i1.wf() && self.i2.wf() && self.i1.items().len() <= self.i2.items().len()
    }

    open spec fn items(&self) -> Seq<Self::Item> {
        Seq::new(self.i1.items().len(), |i: int| (self.i1.items()[i], self.i2.items()[i]))
    }

    fn len(&self) -> (n: usize) {
        self.i1.len()
    }

    fn split(self, at: usize) -> (parts: (Self, Self))
        ensures
            parts.0.i2.items() == self.i2.items().take(at as int),
            parts.1.i2.items() == self.i2.items().skip(at as int),
    {
        let (i11, i12) = self.i1.split(at);
        let (i21, i22) = self.i2.split(at);
        let parts = (Zip { i1: i11, i2: i21 }, Zip { i1: i12, i2: i22 });
        assert(parts.0.items() =~= self.items().take(at as int));
        assert(parts.1.items() =~= self.items().skip(at as int));
        parts
    }

    fn next(&mut self) -> (item: Self::Item) {
        let item = (self.i1.next(), self.i2.next());
        assert(self.items() =~= old(self).items().skip(1));
        item
    }
}

/// What is made out of an iterator by [`SpliteratorExt::copied`] has the same items.
pub proof fn copied_items<I: Spliterator>(iter: Copied<I>)
    ensures
        iter.wf() <==> iter.inner.wf(),
        iter.items() == iter.inner.items(),
{
}

/// What is made out of an iterator by [`SpliteratorExt::enumerate`] has the same items, each with its
/// number, counted from `idx` on. It is sound as long as all of them can be numbered.
pub proof fn enumerated_items<I: Spliterator>(iter: Enumerate<I>, i: int)
    ensures
        iter.wf() <==> iter.inner.wf() && iter.idx + iter.inner.items().len() <= usize::MAX,
        iter.items().len() == iter.inner.items().len(),
        iter.wf() && 0 <= i < iter.items().len() ==> iter.items()[i].0 == iter.idx + i
            && iter.items()[i].1 == iter.inner.items()[i],
{
}

/// What is made out of two iterators by [`SpliteratorExt::zip_exact`] has the pairs of their items,
/// each with the one of the same number. It is sound as long as the second one has enough of them.
pub proof fn zipped_items<I1: Spliterator, I2: Spliterator>(iter: Zip<I1, I2>, i: int)
    ensures
        iter.wf() <==> iter.i1.wf() && iter.i2.wf() && iter.i1.items().len()
            <= iter.i2.items().len(),
        iter.items().len() == iter.i1.items().len(),
        0 <= i < iter.items().len() ==> iter.items()[i].0 == iter.i1.items()[i]
            && iter.items()[i].1 == iter.i2.items()[i],
{
}

} // verus!
