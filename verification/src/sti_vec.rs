//! The vectors of `sti`, with what they hold.

use vstd::layout::size_of;
use vstd::prelude::*;

verus! {

/// Whether `n` elements can be addressed.
pub open spec fn fits<T>(n: int) -> bool {
    n * size_of::<T>() <= isize::MAX
}

/// The least capacity that a vector grows to.
pub open spec fn grow_min_cap<T>() -> int {
    if size_of::<T>() == 0 {
        usize::MAX as int
    } else if size_of::<T>() <= 4 {
        16int / (size_of::<T>() as int)
    } else if size_of::<T>() <= 256 {
        4
    } else {
        1
    }
}

/// The capacity of a vector that had `cap`, once it has room for `min_cap` elements. It at least
/// doubles if it changes, except that elements without a size are never short of room again.
pub open spec fn grown<T>(cap: int, min_cap: int) -> int {
    if min_cap <= cap {
        cap
    } else {
        let doubled = if size_of::<T>() > 0 {
            2 * cap
        } else {
            0
        };
        vstd::math::max(vstd::math::max(min_cap, doubled), grow_min_cap::<T>())
    }
}

/// Whether a vector with `cap` that holds `len` elements has room for `extra` more, or can make it:
/// they can be counted, and the new capacity can be addressed.
pub open spec fn room<T>(len: int, cap: int, extra: int) -> bool {
    len + extra <= cap || len + extra <= usize::MAX && fits::<T>(grown::<T>(cap, len + extra))
}

/// There is room for what there is room for already. Otherwise, elements without a size have to be
/// counted, and no more. Of all others, the new ones have to fit into the address space with those that
/// are there, and so does twice the capacity, since it doubles.
pub proof fn room_for_what_fits<T>(len: int, cap: int, extra: int)
    requires
        0 <= len <= cap <= usize::MAX,
        0 <= extra,
    ensures
        room::<T>(len, cap, extra) <==> len + extra <= cap || if size_of::<T>() == 0 {
            len + extra <= usize::MAX
        } else {
            (len + extra) * size_of::<T>() <= isize::MAX && 2 * cap * size_of::<T>() <= isize::MAX
        },
{
    let size = size_of::<T>() as int;
    let n = grown::<T>(cap, len + extra);
    if size == 0 {
        assert(n * size == 0) by (nonlinear_arith)
            requires
                size == 0,
        ;
    } else if len + extra > cap {
        let least = grow_min_cap::<T>();
        // the least capacity is always in reach, or not more than is asked for.
        assert(least <= len + extra || least * size <= 1024) by {
            if size <= 4 {
                assert(16int / size * size <= 16) by (nonlinear_arith)
                    requires
                        1 <= size,
                ;
            }
        }
        assert(n * size >= (len + extra) * size && n * size >= 2 * cap * size) by (nonlinear_arith)
            requires
                n >= len + extra,
                n >= 2 * cap,
                size >= 0,
        ;
        assert((len + extra) * size >= len + extra) by (nonlinear_arith)
            requires
                len + extra >= 0,
                size >= 1,
        ;
        if n == least && least <= len + extra {
            assert(n == len + extra);
        }
    }
}

/// A capacity that suffices stays. Any other grows to what is asked for at least, and to twice what it
/// was unless the elements have no size. It grows no further than to the greatest of those and the
/// least capacity there is.
pub proof fn grows_enough<T>(cap: int, min_cap: int)
    requires
        0 <= cap,
    ensures
        min_cap <= cap ==> grown::<T>(cap, min_cap) == cap,
        grown::<T>(cap, min_cap) >= min_cap,
        min_cap > cap && size_of::<T>() > 0 ==> grown::<T>(cap, min_cap) >= 2 * cap,
        min_cap > cap ==> grown::<T>(cap, min_cap) >= grow_min_cap::<T>(),
        min_cap > cap ==> grown::<T>(cap, min_cap) == min_cap || size_of::<T>() > 0 && grown::<T>(
            cap,
            min_cap,
        ) == 2 * cap || grown::<T>(cap, min_cap) == grow_min_cap::<T>(),
{
}

/// A capacity that cannot be doubled cannot grow.
proof fn lemma_does_not_fit<T>(cap: int, min_cap: int)
    requires
        size_of::<T>() > 0,
        min_cap > cap,
        2 * cap > usize::MAX,
    ensures
        !fits::<T>(grown::<T>(cap, min_cap)),
{
    let n = grown::<T>(cap, min_cap);
    let size = size_of::<T>() as int;
    assert(n * size >= n) by (nonlinear_arith)
        requires
            size >= 1,
            n >= 0,
    ;
}

/// A `sti::vec::Vec` on memory of the program's own. Nothing is visible of it here.
#[verifier::external_body]
#[verifier::reject_recursive_types(T)]
struct Inner<T> {
    vec: sti::vec::Vec<T>,
}

/// A vector of `sti`.
///
/// It stands for the sequence of its elements. The vector itself is only touched by the few
/// functions here that call into `sti`. Each of them says what it does to the elements and to the
/// capacity. Like everything in `sti`, they panic when memory runs out.
#[verifier::reject_recursive_types(T)]
pub struct StiVec<T> {
    inner: Inner<T>,
    elements: Ghost<Seq<T>>,
    cap: Ghost<nat>,
}

impl<T> StiVec<T> {
    pub closed spec fn view(&self) -> Seq<T> {
        self.elements@
    }

    /// How many elements there is room for.
    pub closed spec fn spec_cap(&self) -> nat {
        self.cap@
    }

    /// `sti::vec::Vec::new`: an empty vector without any room.
    #[verifier::external_body]
    pub(crate) fn new() -> (vec: Self)
        ensures
            vec@ == Seq::<T>::empty(),
            vec.spec_cap() == 0,
    {
        StiVec {
            inner: Inner { vec: sti::vec::Vec::new() },
            elements: Ghost(Seq::empty()),
            cap: Ghost(0),
        }
    }

    /// `sti::vec::Vec::with_cap`: an empty vector with room for exactly `cap` elements. It panics
    /// if that many cannot be addressed.
    #[verifier::external_body]
    pub(crate) fn with_cap(cap: usize) -> (vec: Self)
        requires
            fits::<T>(cap as int),
        ensures
            vec@ == Seq::<T>::empty(),
            vec.spec_cap() == cap,
    {
        StiVec {
            inner: Inner { vec: sti::vec::Vec::with_cap(cap) },
            elements: Ghost(Seq::empty()),
            cap: Ghost(cap as nat),
        }
    }

    /// `sti::vec::Vec::reserve_extra`: makes room for `extra` more elements. It panics if that
    /// many cannot be counted, or if the new capacity cannot be addressed.
    #[verifier::external_body]
    pub(crate) fn reserve_extra(&mut self, extra: usize)
        requires
            room::<T>(old(self)@.len() as int, old(self).spec_cap() as int, extra as int),
        ensures
            final(self)@ == old(self)@,
            final(self).spec_cap() == grown::<T>(
                old(self).spec_cap() as int,
                old(self)@.len() + extra,
            ),
    {
        self.inner.vec.reserve_extra(extra)
    }

    /// `sti::vec::Vec::push`: adds an element at the end, and makes room for it first if there is
    /// none, as [`StiVec::reserve_extra`] does.
    #[verifier::external_body]
    pub(crate) fn push(&mut self, value: T)
        requires
            room::<T>(old(self)@.len() as int, old(self).spec_cap() as int, 1),
        ensures
            final(self)@ == old(self)@.push(value),
            final(self).spec_cap() == grown::<T>(
                old(self).spec_cap() as int,
                old(self)@.len() + 1int,
            ),
    {
        self.inner.vec.push(value)
    }

    /// `sti::vec::Vec::pop`: takes the last element, if there is one.
    #[verifier::external_body]
    pub(crate) fn pop(&mut self) -> (last: Option<T>)
        ensures
            final(self).spec_cap() == old(self).spec_cap(),
            match last {
                Some(value) => old(self)@ == final(self)@.push(value),
                None => old(self)@.len() == 0 && final(self)@ == old(self)@,
            },
    {
        self.inner.vec.pop()
    }

    /// `sti::vec::Vec::cap`: how many elements there is room for.
    #[verifier::external_body]
    fn inner_cap(&self) -> (cap: usize)
        ensures
            cap == self.spec_cap(),
    {
        self.inner.vec.cap()
    }

    /// `sti::vec::Vec::as_slice`: the elements, in their order.
    #[verifier::external_body]
    pub(crate) fn as_slice(&self) -> (slice: &[T])
        ensures
            slice@ == self@,
    {
        self.inner.vec.as_slice()
    }

    /// `sti::vec::Vec::as_slice_mut`: the elements, in their order, to be changed in place.
    #[verifier::external_body]
    pub(crate) fn as_slice_mut(&mut self) -> (slice: &mut [T])
        ensures
            slice@ == old(self)@,
            final(self)@ == final(slice)@,
            final(self).spec_cap() == old(self).spec_cap(),
    {
        self.inner.vec.as_slice_mut()
    }

    /// How many elements there is room for.
    pub fn cap(&self) -> (cap: usize)
        ensures
            cap == self.spec_cap(),
    {
        self.inner_cap()
    }

    /// Whether there is room for `extra` more elements, or can be.
    pub fn has_room(&self, extra: usize) -> (yes: bool)
        ensures
            yes == room::<T>(self@.len() as int, self.spec_cap() as int, extra as int),
    {
        let len: usize = self.len();
        let cap: usize = self.cap();
        let size: usize = core::mem::size_of::<T>();
        let min_cap: usize = match len.checked_add(extra) {
            Some(min_cap) => min_cap,
            None => return false,
        };
        if min_cap <= cap || size == 0 {
            return true;
        }
        let least: usize = if size <= 4 {
            16 / size
        } else if size <= 256 {
            4
        } else {
            1
        };
        let doubled: usize = match cap.checked_mul(2) {
            Some(doubled) => doubled,
            None => {
                proof {
                    lemma_does_not_fit::<T>(cap as int, min_cap as int);
                }
                return false;
            },
        };
        let mut wanted: usize = min_cap;
        if doubled > wanted {
            wanted = doubled;
        }
        if least > wanted {
            wanted = least;
        }
        match wanted.checked_mul(size) {
            Some(bytes) => bytes <= isize::MAX as usize,
            None => false,
        }
    }

    /// The number of elements.
    pub fn len(&self) -> (len: usize)
        ensures
            len == self@.len(),
    {
        self.as_slice().len()
    }

    /// The element with this number.
    pub fn get(&self, i: usize) -> (element: &T)
        requires
            i < self@.len(),
        ensures
            *element == self@[i as int],
    {
        &self.as_slice()[i]
    }
}

} // verus!
