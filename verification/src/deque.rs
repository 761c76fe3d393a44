//! A circular work-stealing deque, after "Dynamic Circular Work-Stealing Deque"
//! by Chase and Lev, SPAA 2005.
//!
//! The owner of a deque pushes and pops at its end. Everybody else steals at its
//! beginning. Both ends are machine words that only ever count on and wrap around,
//! and a word names a slot of the buffer by its low bits.
//!
//! What an operation does with the words that it has loaded is decided by
//! [`push_plan`], [`pop_plan`] and [`steal_plan`]: see [`plans`]. [`Deque`] runs the three
//! operations from beginning to end on memory of its own. [`race`] has them run step
//! by step, one owner against any number of thieves.

pub mod plans;
pub mod race;

use vstd::prelude::*;
use vstd::arithmetic::div_mod::{lemma_mod_equivalence, lemma_mod_mod, lemma_small_mod};
use vstd::arithmetic::power2::{
    lemma2_to64, lemma_pow2_adds, lemma_pow2_pos, lemma_pow2_strictly_increases,
    lemma_pow2_unfold, pow2,
};
use vstd::bits::{lemma_usize_low_bits_mask_is_mod, low_bits_mask};

verus! {

/// The least number of slots of a buffer that has any.
pub const MIN_CAP: usize = 16;

/// The number of values of a machine word.
pub open spec fn word_values() -> int {
    usize::MAX + 1
}

/// The word that stands for a position.
pub open spec fn word(position: int) -> usize {
    (position % word_values()) as usize
}

/// How far it is, going up, from one word to another.
pub open spec fn distance(begin: usize, end: usize) -> nat {
    if begin <= end {
        (end - begin) as nat
    } else {
        (end - begin + word_values()) as nat
    }
}

/// The difference of two words, read as a signed number.
pub open spec fn signed_distance(begin: usize, end: usize) -> int {
    let up = distance(begin, end) as int;
    if up <= isize::MAX {
        up
    } else {
        up - word_values()
    }
}

/// What a push does, once it has loaded both ends and the buffer's capacity.
#[derive(Clone, Copy, Debug, PartialEq, Eq)]
pub struct PushPlan {
    /// The capacity to move to before writing, where the buffer is full.
    pub grow: Option<usize>,
    /// Where the value goes.
    pub at: usize,
    /// The new end, to be stored after the value was written.
    pub next: usize,
    /// Whether the deque held anything before.
    pub had_more: bool,
}

/// What a pop does, once it has taken one from the end and then loaded the beginning.
#[derive(Clone, Copy, Debug, PartialEq, Eq)]
pub enum PopPlan {
    /// Nothing was left: put the end back.
    Empty { end: usize },
    /// There are others in front of it: the value is the owner's, whatever thieves do.
    Take { at: usize },
    /// It is the only one: the owner has it if it can move `begin` to `next`. The end
    /// becomes `next` either way.
    Race { at: usize, begin: usize, next: usize },
}

/// What a steal does, once it has loaded the beginning and then the end.
#[derive(Clone, Copy, Debug, PartialEq, Eq)]
pub enum StealPlan {
    /// There is nothing to steal.
    Empty,
    /// The thief has the value if it can move `at`, the beginning, to `next`.
    Try { at: usize, next: usize },
}

pub open spec fn spec_push_plan(begin: usize, end: usize, cap: usize) -> PushPlan {
    let len = signed_distance(begin, end);
    PushPlan {
        grow: if len >= cap {
            if 2 * cap >= MIN_CAP {
                Some((2 * cap) as usize)
            } else {
                Some(MIN_CAP)
            }
        } else {
            None
        },
        at: end,
        next: word(end + 1),
        had_more: len > 0,
    }
}

pub open spec fn spec_pop_plan(begin: usize, end: usize) -> PopPlan {
    let len = signed_distance(begin, end);
    if len <= 0 {
        PopPlan::Empty { end: begin }
    } else if len > 1 {
        PopPlan::Take { at: word(end - 1) }
    } else {
        PopPlan::Race { at: word(end - 1), begin, next: word(begin + 1) }
    }
}

pub open spec fn spec_steal_plan(begin: usize, end: usize) -> StealPlan {
    if signed_distance(begin, end) <= 0 {
        StealPlan::Empty
    } else {
        StealPlan::Try { at: begin, next: word(begin + 1) }
    }
}

/// Decides a push from the two ends and the buffer's capacity.
pub fn push_plan(begin: usize, end: usize, cap: usize) -> (plan: PushPlan)
    requires
        2 * cap <= usize::MAX,
    ensures
        plan == spec_push_plan(begin, end, cap),
{
    let len: isize = queue_len(begin, end);
    proof {
        lemma_word_step(end);
    }
    let full: bool = len >= 0 && len as usize >= cap;
    let grow: Option<usize> = if full {
        let doubled: usize = cap * 2;
        Some(
            if doubled >= MIN_CAP {
                doubled
            } else {
                MIN_CAP
            },
        )
    } else {
        None
    };
    PushPlan { grow, at: end, next: end.wrapping_add(1), had_more: len > 0 }
}

/// Decides a pop from the beginning and from the end as it was before the pop lowered it.
pub fn pop_plan(begin: usize, end: usize) -> (plan: PopPlan)
    ensures
        plan == spec_pop_plan(begin, end),
{
    let len: isize = queue_len(begin, end);
    proof {
        lemma_word_step(begin);
        lemma_word_step(end);
    }
    if len <= 0 {
        return PopPlan::Empty { end: begin };
    }
    if len > 1 {
        return PopPlan::Take { at: end.wrapping_sub(1) };
    }
    PopPlan::Race { at: end.wrapping_sub(1), begin, next: begin.wrapping_add(1) }
}

/// Decides a steal from the two ends.
pub fn steal_plan(begin: usize, end: usize) -> (plan: StealPlan)
    ensures
        plan == spec_steal_plan(begin, end),
{
    let len: isize = queue_len(begin, end);
    proof {
        lemma_word_step(begin);
    }
    if len <= 0 {
        return StealPlan::Empty;
    }
    StealPlan::Try { at: begin, next: begin.wrapping_add(1) }
}

/// The number of positions from `begin` to `end`, negative where `end` is behind.
pub fn queue_len(begin: usize, end: usize) -> (len: isize)
    ensures
        len == signed_distance(begin, end),
{
    let up: usize = end.wrapping_sub(begin);
    if up <= isize::MAX as usize {
        up as isize
    } else {
        -1 - ((usize::MAX - up) as isize)
    }
}

proof fn lemma_word_step(w: usize)
    ensures
        word(w as int) == w,
        word(w + 1) == w.wrapping_add(1),
        word(w - 1) == w.wrapping_sub(1),
{
    let m = word_values();
    lemma_small_mod(w as nat, m as nat);
    if w + 1 == m {
        assert((w + 1) % m == 0);
    } else {
        lemma_small_mod((w + 1) as nat, m as nat);
    }
    if w == 0 {
        lemma_mod_equivalence(-1, m - 1, m);
        assert((-1 - (m - 1)) % m == 0) by {
            vstd::arithmetic::div_mod::lemma_mod_multiples_basic(-1, m);
        }
        lemma_small_mod((m - 1) as nat, m as nat);
    } else {
        lemma_small_mod((w - 1) as nat, m as nat);
    }
}

/// Whether `n` is a power of two.
pub open spec fn power_of_two(n: int) -> bool {
    exists|k: nat| #[trigger] pow2(k) == n
}

/// The slot of a position in a buffer with `cap` slots.
pub open spec fn slot(position: int, cap: nat) -> int {
    position % (cap as int)
}

/// Two positions less than `cap` apart have slots of their own.
pub(crate) proof fn lemma_slots_distinct(a: int, b: int, cap: nat)
    requires
        a < b < a + cap,
    ensures
        slot(a, cap) != slot(b, cap),
{
    if slot(a, cap) == slot(b, cap) {
        lemma_mod_equivalence(b, a, cap as int);
        lemma_small_mod((b - a) as nat, cap);
    }
}

/// A position and its word have the same slot: the capacity divides the number of words.
proof fn lemma_word_slot(position: int, cap: nat)
    requires
        power_of_two(cap as int),
        cap <= usize::MAX,
    ensures
        slot(word(position) as int, cap) == slot(position, cap),
{
    let k = choose|k: nat| #[trigger] pow2(k) == cap;
    let n = usize::BITS as nat;
    assert(pow2(n) == word_values()) by {
        lemma2_to64();
    }
    if k >= n {
        if k > n {
            lemma_pow2_strictly_increases(n, k);
        }
        assert(false);
    }
    lemma_pow2_adds(k, (n - k) as nat);
    lemma_pow2_pos(k);
    lemma_pow2_pos((n - k) as nat);
    lemma_mod_mod(position, pow2(k) as int, pow2((n - k) as nat) as int);
}

pub(crate) proof fn lemma_pow2_doubles(cap: nat)
    requires
        power_of_two(cap as int),
    ensures
        power_of_two(2 * (cap as int)),
{
    let k = choose|k: nat| #[trigger] pow2(k) == cap;
    lemma_pow2_unfold(k + 1);
    assert(pow2(k + 1) == 2 * cap);
}

pub(crate) proof fn lemma_min_cap()
    ensures
        power_of_two(MIN_CAP as int),
{
    lemma2_to64();
    assert(pow2(4) == MIN_CAP);
}

/// The slots of a deque.
pub struct Buffer<T> {
    inner: Vec<Option<T>>,
}

impl<T> Buffer<T> {
    /// The slots in their order.
    pub closed spec fn view(&self) -> Seq<Option<T>> {
        self.inner@
    }

    /// A buffer has no slots, or a power of two of them.
    pub open spec fn wf(&self) -> bool {
        self@.len() != 0 ==> power_of_two(self@.len() as int)
    }

    /// A buffer without slots.
    pub fn new() -> (buffer: Self)
        ensures
            buffer.wf(),
            buffer@ == Seq::<Option<T>>::empty(),
    {
        Buffer { inner: Vec::new() }
    }

    /// The number of slots.
    pub fn cap(&self) -> (cap: usize)
        ensures
            cap == self@.len(),
    {
        self.inner.len()
    }

    /// The slot that word `i` names.
    pub fn at(&self, i: usize) -> (index: usize)
        requires
            self.wf(),
            self@.len() > 0,
        ensures
            index == slot(i as int, self@.len()),
            index < self@.len(),
    {
        let cap: usize = self.cap();
        proof {
            let k = choose|k: nat| #[trigger] pow2(k) == cap;
            if k >= usize::BITS {
                lemma2_to64();
                if k > usize::BITS {
                    lemma_pow2_strictly_increases(usize::BITS as nat, k);
                }
                assert(false);
            }
            lemma_usize_low_bits_mask_is_mod(i, k);
            assert(low_bits_mask(k) == cap - 1);
        }
        i & (cap - 1)
    }

    /// Puts a value into the slot that word `i` names.
    fn write(&mut self, i: usize, value: T)
        requires
            old(self).wf(),
            old(self)@.len() > 0,
        ensures
            final(self)@ == old(self)@.update(slot(i as int, old(self)@.len()), Some(value)),
    {
        let index: usize = self.at(i);
        self.inner[index] = Some(value);
    }

    /// Moves the value out of the slot that word `i` names.
    fn take(&mut self, i: usize) -> (value: Option<T>)
        requires
            old(self).wf(),
            old(self)@.len() > 0,
        ensures
            value == old(self)@[slot(i as int, old(self)@.len())],
            final(self)@ == old(self)@.update(slot(i as int, old(self)@.len()), None),
    {
        let index: usize = self.at(i);
        let mut value: Option<T> = None;
        core::mem::swap(&mut self.inner[index], &mut value);
        value
    }

    /// Moves the values from `begin` up to `end` to a buffer with `new_cap` slots, or
    /// with [`MIN_CAP`] if that is more. A value keeps its position, and the slots that
    /// get none are empty. The old buffer is used up.
    pub fn resize(self, new_cap: usize, begin: usize, end: usize) -> (buffer: Self)
        requires
            self.wf(),
            power_of_two(new_cap as int) || new_cap <= MIN_CAP,
            distance(begin, end) <= self@.len(),
            distance(begin, end) <= new_cap || distance(begin, end) <= MIN_CAP,
        ensures
            buffer.wf(),
            buffer@.len() == if new_cap >= MIN_CAP { new_cap } else { MIN_CAP },
            forall|j: int|
                0 <= j < distance(begin, end) ==> #[trigger] buffer@[slot(
                    begin + j,
                    buffer@.len(),
                )] == self@[slot(begin + j, self@.len())],
            forall|s: int|
                0 <= s < buffer@.len() && (forall|j: int|
                    0 <= j < distance(begin, end) ==> s != #[trigger] slot(
                        begin + j,
                        buffer@.len(),
                    )) ==> #[trigger] buffer@[s] is None,
    {
        let new_cap: usize = if new_cap >= MIN_CAP {
            new_cap
        } else {
            MIN_CAP
        };
        proof {
            lemma_min_cap();
        }

        let mut inner: Vec<Option<T>> = Vec::with_capacity(new_cap);
        let mut filled: usize = 0;
        while filled < new_cap
            invariant
                filled <= new_cap,
                inner@ == Seq::new(filled as nat, |s: int| None::<T>),
            decreases new_cap - filled,
        {
            inner.push(None);
            filled += 1;
            assert(inner@ =~= Seq::new(filled as nat, |s: int| None::<T>));
        }
        let mut buffer: Buffer<T> = Buffer { inner };

        let mut rest: Buffer<T> = self;
        let ghost cap = self.inner.len() as nat;
        proof {
            lemma_word_step(begin);
        }
        let ghost n = distance(begin, end) as int;
        let ghost mut done: int = 0;
        let mut i: usize = begin;
        while i != end
            invariant
                rest.wf(),
                cap <= usize::MAX,
                rest@.len() == cap == self@.len(),
                buffer.wf(),
                buffer@.len() == new_cap,
                n == distance(begin, end),
                n <= cap,
                n <= new_cap,
                0 <= done <= n,
                i == word(begin + done),
                distance(i, end) == n - done,
                forall|j: int|
                    done <= j < n ==> rest@[#[trigger] slot(begin + j, cap)] == self@[slot(
                        begin + j,
                        cap,
                    )],
                forall|j: int|
                    0 <= j < done ==> #[trigger] buffer@[slot(begin + j, new_cap as nat)] == self@[slot(
                        begin + j,
                        cap,
                    )],
                forall|s: int|
                    0 <= s < buffer@.len() && (forall|j: int|
                        0 <= j < n ==> s != #[trigger] slot(begin + j, new_cap as nat))
                        ==> #[trigger] buffer@[s] is None,
            decreases n - done,
        {
            proof {
                lemma_word_slot(begin + done, cap);
                lemma_word_slot(begin + done, new_cap as nat);
                assert forall|j: int| done < j < n implies slot(begin + done, cap) != #[trigger] slot(
                    begin + j,
                    cap,
                ) by {
                    lemma_slots_distinct(begin + done, begin + j, cap);
                }
                assert forall|j: int| 0 <= j < done implies slot(begin + done, new_cap as nat)
                    != #[trigger] slot(begin + j, new_cap as nat) by {
                    lemma_slots_distinct(begin + j, begin + done, new_cap as nat);
                }
                lemma_word_step(i);
                lemma_word_next(begin + done);
            }
            let value: Option<T> = rest.take(i);
            let index: usize = buffer.at(i);
            buffer.inner[index] = value;
            i = i.wrapping_add(1);
            proof {
                done = done + 1;
            }
        }
        buffer
    }
}

/// A deque, owned by whoever runs an operation on it.
///
/// It stands for the sequence of the values that it holds, in the order in which they
/// were pushed.
pub struct Deque<T: Send> {
    begin: usize,
    end: usize,
    buffer: Buffer<T>,
}

impl<T: Send> Deque<T> {
    /// The position of the first value.
    closed spec fn first(&self) -> int {
        self.begin as int
    }

    pub closed spec fn view(&self) -> Seq<T> {
        Seq::new(
            distance(self.begin, self.end),
            |i: int| self.buffer@[slot(self.first() + i, self.buffer@.len())]->Some_0,
        )
    }

    /// There is a slot for each value, the slots hold the values, and the number of
    /// slots fits a signed word.
    pub closed spec fn wf(&self) -> bool {
        let cap = self.buffer@.len();
        let len = distance(self.begin, self.end);
        &&& self.buffer.wf()
        &&& len <= cap <= isize::MAX
        &&& cap == 0 || cap >= MIN_CAP
        &&& forall|i: int|
            0 <= i < len ==> #[trigger] self.buffer@[slot(self.first() + i, cap)] is Some
    }

    /// The number of slots.
    pub closed spec fn spec_cap(&self) -> nat {
        self.buffer@.len()
    }

    /// What is known of the number of slots of any deque: there is one for each value, and there are
    /// none at all or a power of two of them, [`MIN_CAP`] at least.
    pub proof fn lemma_shape(&self)
        requires
            self.wf(),
        ensures
            self@.len() <= self.spec_cap() <= isize::MAX,
            self.spec_cap() != 0 ==> power_of_two(self.spec_cap() as int) && self.spec_cap()
                >= MIN_CAP,
    {
    }

    /// An empty deque.
    pub fn new() -> (deque: Self)
        ensures
            deque.wf(),
            deque@ == Seq::<T>::empty(),
            deque.spec_cap() == 0,
    {
        let deque = Deque { begin: 0, end: 0, buffer: Buffer::new() };
        assert(deque@ =~= Seq::<T>::empty());
        deque
    }

    /// The number of slots.
    pub fn cap(&self) -> (cap: usize)
        ensures
            cap == self.spec_cap(),
    {
        self.buffer.cap()
    }

    /// The number of values.
    pub fn len(&self) -> (len: usize)
        requires
            self.wf(),
        ensures
            len == self@.len(),
    {
        let len: isize = queue_len(self.begin, self.end);
        if len > 0 {
            len as usize
        } else {
            0
        }
    }

    /// Adds a value at the end, and returns whether there were others before it. A full
    /// buffer doubles.
    pub fn push(&mut self, value: T) -> (had_more: bool)
        requires
            old(self).wf(),
            2 * old(self)@.len() <= isize::MAX,
        ensures
            final(self).wf(),
            final(self)@ == old(self)@.push(value),
            had_more == (old(self)@.len() > 0),
            final(self).spec_cap() == if old(self)@.len() < old(self).spec_cap() {
                old(self).spec_cap()
            } else if old(self).spec_cap() == 0 {
                MIN_CAP as nat
            } else {
                2 * old(self).spec_cap()
            },
            power_of_two(final(self).spec_cap() as int),
            final(self).spec_cap() >= MIN_CAP,
            final(self).spec_cap() >= old(self).spec_cap(),
            final(self).spec_cap() >= final(self)@.len(),
    {
        let begin: usize = self.begin;
        let end: usize = self.end;
        let ghost len = distance(begin, end) as int;

        let plan: PushPlan = push_plan(begin, end, self.buffer.cap());
        if let Some(new_cap) = plan.grow {
            proof {
                lemma_min_cap();
                if self.buffer@.len() > 0 {
                    lemma_pow2_doubles(self.buffer@.len());
                }
            }
            let mut buffer: Buffer<T> = Buffer::new();
            core::mem::swap(&mut self.buffer, &mut buffer);
            self.buffer = buffer.resize(new_cap, begin, end);
        }
        let ghost cap = self.buffer@.len();
        let ghost before = self.buffer@;
        assert(forall|i: int|
            0 <= i < len ==> #[trigger] before[slot(begin + i, cap)] is Some);
        assert(forall|i: int|
            0 <= i < len ==> #[trigger] before[slot(begin + i, cap)]->Some_0 == old(self)@[i]);

        self.buffer.write(plan.at, value);
        self.end = plan.next;

        proof {
            lemma_word_step(end);
            lemma_words_apart(begin, end);
            assert(slot(end as int, cap) == slot(begin + len, cap)) by {
                lemma_word_slot(begin + len, cap);
            }
            assert(distance(self.begin, self.end) == len + 1);
            assert forall|i: int| 0 <= i < len implies #[trigger] slot(begin + i, cap) != slot(
                begin + len,
                cap,
            ) by {
                lemma_slots_distinct(begin + i, begin + len, cap);
            }
            assert forall|i: int| 0 <= i <= len implies #[trigger] self.buffer@[slot(
                begin + i,
                cap,
            )] == Some(old(self)@.push(value)[i]) by {
                if i < len {
                    assert(before[slot(begin + i, cap)] is Some);
                }
            }
            assert(self@ =~= old(self)@.push(value));
        }
        plan.had_more
    }

    /// Takes the value at the end.
    pub fn pop(&mut self) -> (value: Option<T>)
        requires
            old(self).wf(),
        ensures
            final(self).wf(),
            final(self).spec_cap() == old(self).spec_cap(),
            old(self)@.len() == 0 ==> value is None && final(self)@ == old(self)@,
            old(self)@.len() > 0 ==> value == Some(old(self)@.last()) && final(self)@ == old(
                self,
            )@.drop_last(),
    {
        let end: usize = self.end;
        self.end = end.wrapping_sub(1);
        let begin: usize = self.begin;
        let ghost len = distance(begin, end) as int;
        let ghost cap = self.buffer@.len();
        proof {
            lemma_word_step(end);
            lemma_word_step(begin);
            lemma_words_apart(begin, end);
        }

        match pop_plan(begin, end) {
            PopPlan::Empty { end: restored } => {
                self.end = restored;
                assert(self@ =~= old(self)@);
                None
            },
            PopPlan::Take { at } => {
                proof {
                    lemma_word_next(begin + len - 1);
                    lemma_word_step(word(begin + len - 1));
                    lemma_word_slot(begin + len - 1, cap);
                    assert(old(self)@[len - 1] == old(self).buffer@[slot(
                        begin + (len - 1),
                        cap,
                    )]->Some_0);
                }
                let value: Option<T> = self.buffer.take(at);
                proof {
                    self.lemma_others_kept(*old(self), len - 1);
                    assert(self@ =~= old(self)@.drop_last());
                }
                value
            },
            PopPlan::Race { at, begin: _, next } => {
                proof {
                    lemma_word_slot(begin as int, cap);
                    assert(old(self)@[0] == old(self).buffer@[slot(begin + 0, cap)]->Some_0);
                }
                let value: Option<T> = self.buffer.take(at);
                self.begin = next;
                self.end = next;
                assert(self@ =~= old(self)@.drop_last());
                value
            },
        }
    }

    /// Takes the value at the beginning. The error is whether there was none.
    pub fn steal(&mut self) -> (value: Result<T, bool>)
        requires
            old(self).wf(),
        ensures
            final(self).wf(),
            final(self).spec_cap() == old(self).spec_cap(),
            old(self)@.len() == 0 ==> value == Err::<T, bool>(true) && final(self)@ == old(self)@,
            old(self)@.len() > 0 ==> value == Ok::<T, bool>(old(self)@.first()) && final(self)@
                == old(self)@.drop_first(),
    {
        let begin: usize = self.begin;
        let end: usize = self.end;
        let ghost len = distance(begin, end) as int;
        let ghost cap = self.buffer@.len();

        match steal_plan(begin, end) {
            StealPlan::Empty => Err(true),
            StealPlan::Try { at, next } => {
                proof {
                    lemma_word_step(begin);
                    assert(old(self)@[0] == old(self).buffer@[slot(begin + 0, cap)]->Some_0);
                }
                let value: Option<T> = self.buffer.take(at);
                self.begin = next;
                proof {
                    assert(distance(next, end) == len - 1);
                    assert forall|i: int| 0 <= i < len - 1 implies #[trigger] slot(next + i, cap)
                        == slot(begin + (i + 1), cap) by {
                        lemma_word_slot(next + i, cap);
                        lemma_word_slot(begin + (i + 1), cap);
                        lemma_word_shift(begin, i);
                    }
                    assert forall|i: int| 0 < i < len implies #[trigger] self.buffer@[slot(
                        begin + i,
                        cap,
                    )] == old(self).buffer@[slot(begin + i, cap)] by {
                        lemma_slots_distinct(begin as int, begin + i, cap);
                    }
                    assert forall|i: int| 0 <= i < len - 1 implies #[trigger] self.buffer@[slot(
                        next + i,
                        cap,
                    )] == Some(old(self)@[i + 1]) by {
                        assert(old(self).buffer@[slot(begin + (i + 1), cap)] is Some);
                    }
                    assert(self@ =~= old(self)@.drop_first());
                }
                match value {
                    Some(value) => Ok(value),
                    None => Err(true),
                }
            },
        }
    }

    /// Emptying the slot of the `gone`-th value leaves the ones before it alone.
    proof fn lemma_others_kept(&self, before: Self, gone: int)
        requires
            before.wf(),
            0 <= gone < before.buffer@.len(),
            self.begin == before.begin,
            self.buffer@ == before.buffer@.update(
                slot(before.begin + gone, before.buffer@.len()),
                None,
            ),
        ensures
            forall|i: int|
                0 <= i < gone ==> #[trigger] self.buffer@[slot(
                    before.begin + i,
                    before.buffer@.len(),
                )] == before.buffer@[slot(before.begin + i, before.buffer@.len())],
    {
        let cap = before.buffer@.len();
        assert forall|i: int| 0 <= i < gone implies #[trigger] self.buffer@[slot(
            before.begin + i,
            cap,
        )] == before.buffer@[slot(before.begin + i, cap)] by {
            lemma_slots_distinct(before.begin + i, before.begin + gone, cap);
        }
    }
}

/// The end of a deque is the word of its beginning's position and its length.
proof fn lemma_words_apart(begin: usize, end: usize)
    ensures
        word(begin + distance(begin, end)) == end,
{
    let m = word_values();
    lemma_small_mod(end as nat, m as nat);
    if end < begin {
        vstd::arithmetic::div_mod::lemma_mod_add_multiples_vanish(end as int, m);
        assert(begin + distance(begin, end) == m + end);
    }
}

proof fn lemma_word_shift(begin: usize, i: int)
    ensures
        word(word(begin + 1) + i) == word(begin + (i + 1)),
{
    let m = word_values();
    vstd::arithmetic::div_mod::lemma_add_mod_noop(begin + 1, i, m);
    vstd::arithmetic::div_mod::lemma_add_mod_noop(word(begin + 1) as int, i, m);
    vstd::arithmetic::div_mod::lemma_mod_twice(begin + 1, m);
}

proof fn lemma_word_next(position: int)
    ensures
        word(position + 1) == word(position).wrapping_add(1),
{
    let m = word_values();
    lemma_word_step(word(position));
    vstd::arithmetic::div_mod::lemma_add_mod_noop(position, 1, m);
    vstd::arithmetic::div_mod::lemma_add_mod_noop(word(position) as int, 1, m);
    vstd::arithmetic::div_mod::lemma_mod_twice(position, m);
}

} // verus!
