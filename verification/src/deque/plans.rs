//! What the three operations of a deque decide, in terms of positions.

use vstd::prelude::*;
use vstd::arithmetic::div_mod::{lemma_add_mod_noop, lemma_mod_twice, lemma_small_mod};

use crate::deque::race::lemma_exact;
use crate::deque::{
    spec_pop_plan, spec_push_plan, spec_steal_plan, word, word_values, PopPlan, StealPlan, MIN_CAP,
};

verus! {

/// A position that is a word stands for itself, and from each position it is one word to the next,
/// with zero after the greatest.
pub proof fn words_count(position: int)
    ensures
        0 <= position <= usize::MAX ==> word(position) == position,
        word(position) < usize::MAX ==> word(position + 1) == word(position) + 1,
        word(position) == usize::MAX ==> word(position + 1) == 0,
        word(position + word_values()) == word(position),
        word_values() == usize::MAX + 1,
{
    let m = word_values();
    if 0 <= position < m {
        lemma_small_mod(position as nat, m as nat);
    }
    lemma_word_offset(position, 1);
    if word(position) < usize::MAX {
        lemma_small_mod((word(position) + 1) as nat, m as nat);
    }
    vstd::arithmetic::div_mod::lemma_mod_add_multiples_vanish(position, m);
}

proof fn lemma_word_offset(position: int, by: int)
    ensures
        word(word(position) + by) == word(position + by),
{
    let m = word_values();
    lemma_add_mod_noop(position, by, m);
    lemma_add_mod_noop(word(position) as int, by, m);
    lemma_mod_twice(position, m);
}

/// A push puts its value right behind the others. It needs more slots if and only if there are as many
/// values as slots: then it wants twice as many, but not less than [`MIN_CAP`].
pub proof fn push_goes_last(begin: int, len: int, cap: usize)
    requires
        isize::MIN <= len <= isize::MAX,
        2 * cap <= usize::MAX,
    ensures
        ({
            let plan = spec_push_plan(word(begin), word(begin + len), cap);
            &&& plan.at == word(begin + len)
            &&& plan.next == word(begin + len + 1)
            &&& plan.had_more <==> len > 0
            &&& plan.grow is None <==> len < cap
            &&& plan.grow matches Some(slots) ==> slots >= 2 * cap && slots >= MIN_CAP && (slots
                == 2 * cap || slots == MIN_CAP)
        }),
{
    lemma_exact(begin, begin + len);
    lemma_word_offset(begin + len, 1);
}

/// A pop takes the last value. It has to race for it if and only if that is the only one; and without
/// any, it makes the end the beginning.
pub proof fn pop_takes_the_last(begin: int, len: int)
    requires
        isize::MIN <= len <= isize::MAX,
    ensures
        len <= 0 ==> spec_pop_plan(word(begin), word(begin + len)) == (PopPlan::Empty {
            end: word(begin),
        }),
        len == 1 ==> spec_pop_plan(word(begin), word(begin + len)) == (PopPlan::Race {
            at: word(begin),
            begin: word(begin),
            next: word(begin + 1),
        }),
        len > 1 ==> spec_pop_plan(word(begin), word(begin + len)) == (PopPlan::Take {
            at: word(begin + len - 1),
        }),
{
    lemma_exact(begin, begin + len);
    lemma_word_offset(begin, 1);
    lemma_word_offset(begin + len, -1);
}

/// A steal takes the first value, if there is one.
pub proof fn steal_takes_the_first(begin: int, len: int)
    requires
        isize::MIN <= len <= isize::MAX,
    ensures
        len <= 0 ==> spec_steal_plan(word(begin), word(begin + len)) is Empty,
        len > 0 ==> spec_steal_plan(word(begin), word(begin + len)) == (StealPlan::Try {
            at: word(begin),
            next: word(begin + 1),
        }),
{
    lemma_exact(begin, begin + len);
    lemma_word_offset(begin, 1);
}

} // verus!
