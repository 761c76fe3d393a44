//! The three operations of a deque, run step by step by one owner and by any number
//! of thieves at once.
//!
//! A step is what happens at one moment: a load, a store, a read-modify-write, or an
//! access to a slot. Steps of different threads come in any order, and each sees what
//! the steps before it left. What a thread does next is what the plans of
//! [`crate::deque`] say of the words that it has loaded.
//!
//! Positions are counted without bound here, and a word stands for all positions that
//! differ by a multiple of the number of words. A thief that fell asleep between its
//! first load and its exchange, and slept until the beginning had gone once through all
//! words, could take the old word for the new one. [`next`] leaves that out.

use vstd::prelude::*;
use vstd::multiset::Multiset;

use crate::deque::{
    lemma_slots_distinct, power_of_two, signed_distance, slot, spec_pop_plan, spec_push_plan,
    spec_steal_plan, word, word_values, PopPlan, StealPlan, MIN_CAP,
};

verus! {

/// The memory that the threads share.
pub struct Shared<T> {
    pub begin: int,
    pub end: int,
    pub cap: nat,
    /// What the slots hold.
    pub slots: Map<int, T>,
}

/// Where the owner is.
pub enum Owner<T> {
    Idle,
    /// A push has loaded the beginning.
    PushLoaded { value: T, begin: int },
    /// There is a slot for the value.
    PushReady { value: T },
    /// The value is in its slot.
    PushWritten { value: T },
    /// A pop has lowered the end, which was `end` before.
    PopLowered { end: int },
    /// There was nothing to pop, and the end has to be put back.
    PopRestore { begin: int },
    /// The value at `at` is the owner's. What it is was settled when that was decided.
    PopTake { at: int, value: T },
    /// The owner has to race for the only value.
    PopRace { at: int },
    /// The owner has read the only value.
    PopRaceRead { at: int, value: T },
    /// The race is over.
    PopSettle { at: int, won: Option<T> },
}

/// Where a thief is.
pub enum Thief<T> {
    Idle,
    /// The thief has loaded the beginning.
    Loaded { begin: int },
    /// The end it then loaded was after that beginning.
    Checked { begin: int },
    /// The thief has read the value.
    Read { begin: int, value: T },
}

/// A moment of a run.
pub struct State<T> {
    pub mem: Shared<T>,
    pub owner: Owner<T>,
    pub thieves: Seq<Thief<T>>,
    /// All values that were ever pushed.
    pub pushed: Multiset<T>,
    /// All values that the owner or a thief has got.
    pub taken: Multiset<T>,
}

/// What can happen next.
pub enum Step<T> {
    PushLoad { value: T },
    PushRoom,
    PushWrite,
    PushStore,
    PopLower,
    PopLoad,
    PopRestore,
    PopRead,
    PopRaceRead,
    PopExchange,
    PopSettle,
    StealLoad { thief: int },
    StealCheck { thief: int },
    StealRead { thief: int },
    StealExchange { thief: int },
}

impl<T> Shared<T> {
    /// What the slot of a position holds.
    pub open spec fn at(self, position: int) -> T {
        self.slots[slot(position, self.cap)]
    }

    /// The values of the positions from the beginning up to `avail`.
    pub open spec fn values(self, avail: int) -> Seq<T> {
        Seq::new((avail - self.begin) as nat, |i: int| self.at(self.begin + i))
    }
}

impl<T> State<T> {
    /// The end of what can still be got: it differs from the end while the owner pops.
    pub open spec fn avail(self) -> int {
        match self.owner {
            Owner::PopLowered { end } => end,
            Owner::PopRestore { begin } => begin,
            Owner::PopRace { at } => at + 1,
            Owner::PopRaceRead { at, .. } => at + 1,
            Owner::PopSettle { at, .. } => at + 1,
            _ => self.mem.end,
        }
    }

    /// The values that nobody has got yet, in the order in which they were pushed.
    pub open spec fn contents(self) -> Seq<T> {
        self.mem.values(self.avail())
    }

    pub open spec fn owner_ok(self) -> bool {
        let mem = self.mem;
        match self.owner {
            Owner::Idle => true,
            Owner::PushLoaded { value, begin } => begin <= mem.begin && mem.end - begin <= mem.cap,
            Owner::PushReady { value } => mem.end - mem.begin < mem.cap,
            Owner::PushWritten { value } => mem.end - mem.begin < mem.cap && mem.at(mem.end)
                == value,
            Owner::PopLowered { end } => mem.end == end - 1,
            Owner::PopRestore { begin } => mem.begin == begin && mem.end == begin - 1,
            Owner::PopTake { at, value } => mem.end == at && at - mem.begin < mem.cap && mem.at(at)
                == value,
            Owner::PopRace { at } => mem.end == at && at <= mem.begin <= at + 1,
            Owner::PopRaceRead { at, value } => mem.end == at && at <= mem.begin <= at + 1 && (
            mem.begin == at ==> mem.at(at) == value),
            Owner::PopSettle { at, won } => mem.end == at && mem.begin == at + 1,
        }
    }

    pub open spec fn thief_ok(self, thief: Thief<T>) -> bool {
        match thief {
            Thief::Idle => true,
            Thief::Loaded { begin } => begin <= self.mem.begin,
            Thief::Checked { begin } => begin <= self.mem.begin && (begin == self.mem.begin ==> begin
                < self.avail()),
            Thief::Read { begin, value } => begin <= self.mem.begin && (begin == self.mem.begin
                ==> begin < self.avail() && self.mem.at(begin) == value),
        }
    }

    /// What holds at every moment.
    pub open spec fn inv(self) -> bool {
        &&& self.mem.begin <= self.avail() <= self.mem.begin + self.mem.cap
        &&& self.mem.cap <= isize::MAX
        &&& self.mem.cap != 0 ==> self.mem.cap >= MIN_CAP && power_of_two(self.mem.cap as int)
        &&& self.owner_ok()
        &&& forall|k: int|
            0 <= k < self.thieves.len() ==> self.thief_ok(#[trigger] self.thieves[k])
        &&& self.pushed == self.taken.add(self.contents().to_multiset())
    }

    pub open spec fn with_thief(self, k: int, thief: Thief<T>) -> Self {
        State { thieves: self.thieves.update(k, thief), ..self }
    }

    pub open spec fn with_owner(self, owner: Owner<T>) -> Self {
        State { owner, ..self }
    }

    pub open spec fn with_end(self, end: int, owner: Owner<T>) -> Self {
        State { mem: Shared { end, ..self.mem }, owner, ..self }
    }
}

/// An empty deque, nobody at work.
pub open spec fn init<T>(s: State<T>) -> bool {
    &&& s.mem.begin == s.mem.end
    &&& s.mem.cap == 0
    &&& s.owner == Owner::<T>::Idle
    &&& forall|k: int| 0 <= k < s.thieves.len() ==> #[trigger] s.thieves[k] == Thief::<T>::Idle
    &&& s.pushed == Multiset::<T>::empty()
    &&& s.taken == Multiset::<T>::empty()
}

/// Whether the step can lead from the first moment to the second.
pub open spec fn next<T>(s: State<T>, t: State<T>, step: Step<T>) -> bool {
    let mem = s.mem;
    match (step, s.owner) {
        (Step::PushLoad { value }, Owner::Idle) => t == s.with_owner(
            Owner::PushLoaded { value, begin: mem.begin },
        ),
        (Step::PushRoom, Owner::PushLoaded { value, begin }) => {
            match spec_push_plan(word(begin), word(mem.end), mem.cap as usize).grow {
                None => t == s.with_owner(Owner::PushReady { value }),
                // The new buffer holds at each position what the old one held there.
                // The rest of it holds anything. It has to fit in memory.
                Some(cap) => {
                    &&& cap <= isize::MAX
                    &&& t.mem == Shared { cap: cap as nat, slots: t.mem.slots, ..mem }
                    &&& forall|p: int| begin <= p < mem.end ==> #[trigger] t.mem.at(p) == mem.at(p)
                    &&& t == (State { mem: t.mem, owner: Owner::PushReady { value }, ..s })
                },
            }
        },
        (Step::PushWrite, Owner::PushReady { value }) => {
            let slots = mem.slots.insert(slot(mem.end, mem.cap), value);
            t == (State {
                mem: Shared { slots, ..mem },
                owner: Owner::PushWritten { value },
                ..s
            })
        },
        (Step::PushStore, Owner::PushWritten { value }) => t == (State {
            pushed: s.pushed.insert(value),
            ..s.with_end(mem.end + 1, Owner::Idle)
        }),
        (Step::PopLower, Owner::Idle) => t == s.with_end(
            mem.end - 1,
            Owner::PopLowered { end: mem.end },
        ),
        (Step::PopLoad, Owner::PopLowered { end }) => {
            match spec_pop_plan(word(mem.begin), word(end)) {
                PopPlan::Empty { .. } => t == s.with_owner(Owner::PopRestore { begin: mem.begin }),
                PopPlan::Take { .. } => {
                    let value = mem.at(end - 1);
                    t == (State {
                        taken: s.taken.insert(value),
                        ..s.with_owner(Owner::PopTake { at: end - 1, value })
                    })
                },
                PopPlan::Race { .. } => t == s.with_owner(Owner::PopRace { at: end - 1 }),
            }
        },
        (Step::PopRestore, Owner::PopRestore { begin }) => t == s.with_end(begin, Owner::Idle),
        (Step::PopRead, Owner::PopTake { at, value }) => t == s.with_owner(Owner::Idle),
        (Step::PopRaceRead, Owner::PopRace { at }) => t == s.with_owner(
            Owner::PopRaceRead { at, value: mem.at(at) },
        ),
        (Step::PopExchange, Owner::PopRaceRead { at, value }) => if word(mem.begin) == word(at) {
            t == (State {
                mem: Shared { begin: mem.begin + 1, ..mem },
                owner: Owner::PopSettle { at, won: Some(value) },
                taken: s.taken.insert(value),
                ..s
            })
        } else {
            t == s.with_owner(Owner::PopSettle { at, won: None })
        },
        (Step::PopSettle, Owner::PopSettle { at, won }) => t == s.with_end(at + 1, Owner::Idle),
        (Step::StealLoad { thief }, _) => {
            &&& 0 <= thief < s.thieves.len()
            &&& s.thieves[thief] == Thief::<T>::Idle
            &&& t == s.with_thief(thief, Thief::Loaded { begin: mem.begin })
        },
        (Step::StealCheck { thief }, _) => {
            &&& 0 <= thief < s.thieves.len()
            &&& s.thieves[thief] matches Thief::Loaded { begin }
            &&& match spec_steal_plan(word(begin), word(mem.end)) {
                StealPlan::Empty => t == s.with_thief(thief, Thief::Idle),
                StealPlan::Try { .. } => t == s.with_thief(thief, Thief::Checked { begin }),
            }
        },
        (Step::StealRead { thief }, _) => {
            &&& 0 <= thief < s.thieves.len()
            &&& s.thieves[thief] matches Thief::Checked { begin }
            &&& t == s.with_thief(thief, Thief::Read { begin, value: mem.at(begin) })
        },
        (Step::StealExchange { thief }, _) => {
            &&& 0 <= thief < s.thieves.len()
            &&& s.thieves[thief] matches Thief::Read { begin, value }
            &&& mem.begin - begin < word_values()
            &&& if word(mem.begin) == word(begin) {
                t == (State {
                    mem: Shared { begin: mem.begin + 1, ..mem },
                    taken: s.taken.insert(value),
                    ..s.with_thief(thief, Thief::Idle)
                })
            } else {
                t == s.with_thief(thief, Thief::Idle)
            }
        },
        _ => false,
    }
}

/// Words tell how far two positions are from each other, if that is not too far.
pub proof fn lemma_exact(begin: int, end: int)
    requires
        isize::MIN <= end - begin <= isize::MAX,
    ensures
        signed_distance(word(begin), word(end)) == end - begin,
{
    let m = word_values();
    vstd::arithmetic::div_mod::lemma_fundamental_div_mod(begin, m);
    vstd::arithmetic::div_mod::lemma_fundamental_div_mod(end, m);
    let d = end / m - begin / m;
    assert(m * (end / m) - m * (begin / m) == m * d) by (nonlinear_arith)
        requires
            d == end / m - begin / m,
    ;
    assert(-2 < d < 2) by (nonlinear_arith)
        requires
            -2 * m < m * d < 2 * m,
            m > 0,
    ;
    assert(m * d == if d == 0 {
        0
    } else if d == 1 {
        m
    } else {
        -m
    }) by (nonlinear_arith)
        requires
            -2 < d < 2,
    ;
}

proof fn lemma_same_word(a: int, b: int)
    requires
        a <= b < a + word_values(),
        word(a) == word(b),
    ensures
        a == b,
{
    vstd::arithmetic::div_mod::lemma_mod_equivalence(b, a, word_values());
    vstd::arithmetic::div_mod::lemma_small_mod((b - a) as nat, word_values() as nat);
}

proof fn lemma_without_first<T>(s: Seq<T>)
    requires
        s.len() > 0,
    ensures
        s.to_multiset() =~= s.drop_first().to_multiset().insert(s.first()),
{
    broadcast use vstd::seq_lib::group_to_multiset_ensures;

    assert(s.remove(0) =~= s.drop_first());
    assert(s.to_multiset().count(s[0]) > 0) by {
        assert(s.contains(s[0]));
    }
}

proof fn lemma_without_last<T>(s: Seq<T>)
    requires
        s.len() > 0,
    ensures
        s.to_multiset() =~= s.drop_last().to_multiset().insert(s.last()),
{
    broadcast use vstd::seq_lib::group_to_multiset_ensures;

    assert(s.drop_last().push(s.last()) =~= s);
}

/// The invariant holds of an empty deque with nobody at work.
pub proof fn init_inv<T>(s: State<T>)
    requires
        init(s),
    ensures
        s.inv(),
{
    broadcast use vstd::seq_lib::group_to_multiset_ensures;

    assert(s.contents() =~= Seq::<T>::empty());
    assert(s.pushed =~= s.taken.add(s.contents().to_multiset()));
}

/// Whether a step gets a value for the one who takes it, and which.
pub open spec fn gets<T>(s: State<T>, step: Step<T>) -> Option<T> {
    let mem = s.mem;
    match (step, s.owner) {
        (Step::PopLoad, Owner::PopLowered { end }) => match spec_pop_plan(
            word(mem.begin),
            word(end),
        ) {
            PopPlan::Take { .. } => Some(mem.at(end - 1)),
            _ => None,
        },
        (Step::PopExchange, Owner::PopRaceRead { at, value }) => if word(mem.begin) == word(at) {
            Some(value)
        } else {
            None
        },
        (Step::StealExchange { thief }, _) => match s.thieves[thief] {
            Thief::Read { begin, value } => if word(mem.begin) == word(begin) {
                Some(value)
            } else {
                None
            },
            _ => None,
        },
        _ => None,
    }
}

/// Whether a step completes a push, and of what.
pub open spec fn puts<T>(s: State<T>, step: Step<T>) -> Option<T> {
    match (step, s.owner) {
        (Step::PushStore, Owner::PushWritten { value }) => Some(value),
        _ => None,
    }
}

/// What a step does to the contents. A push appends. What the owner gets is the last
/// value and what a thief gets is the first one, and it is no longer there for anybody
/// else. No other step changes the contents.
pub proof fn step_contents<T>(s: State<T>, t: State<T>, step: Step<T>)
    requires
        s.inv(),
        next(s, t, step),
    ensures
        puts(s, step) matches Some(value) ==> t.contents() == s.contents().push(value),
        gets(s, step) matches Some(value) ==> s.contents().len() > 0 && if step
            is StealExchange {
            value == s.contents().first() && t.contents() == s.contents().drop_first()
        } else {
            value == s.contents().last() && t.contents() == s.contents().drop_last()
        },
        puts(s, step) is None && gets(s, step) is None ==> t.contents() == s.contents(),
{
    let mem = s.mem;
    match (step, s.owner) {
        (Step::PushLoad { value }, Owner::Idle) => {
            assert(t.contents() =~= s.contents());
        },
        (Step::PushRoom, Owner::PushLoaded { value, begin }) => {
            assert forall|i: int| 0 <= i < s.contents().len() implies t.contents()[i]
                == s.contents()[i] by {
                assert(t.mem.begin == mem.begin);
                assert(begin <= mem.begin + i < mem.end);
                assert(t.mem.at(mem.begin + i) == mem.at(mem.begin + i));
            }
            assert(t.contents() =~= s.contents());
        },
        (Step::PushWrite, Owner::PushReady { value }) => {
            assert forall|i: int| 0 <= i < s.contents().len() implies t.contents()[i]
                == s.contents()[i] by {
                lemma_slots_distinct(mem.begin + i, mem.end, mem.cap);
            }
            assert(t.contents() =~= s.contents());
        },
        (Step::PushStore, Owner::PushWritten { value }) => {
            assert(t.contents() =~= s.contents().push(value));
        },
        (Step::PopLoad, Owner::PopLowered { end }) => {
            lemma_exact(mem.begin, end);
            if gets(s, step) is Some {
                assert(t.contents() =~= s.contents().drop_last());
            } else {
                assert(t.contents() =~= s.contents());
            }
        },
        (Step::PopExchange, Owner::PopRaceRead { at, value }) => {
            if word(mem.begin) == word(at) {
                lemma_same_word(at, mem.begin);
                assert(t.contents() =~= s.contents().drop_last());
            } else {
                assert(t.contents() =~= s.contents());
            }
        },
        (Step::StealExchange { thief }, _) => {
            match s.thieves[thief] {
                Thief::Read { begin, value } => {
                    assert(s.thief_ok(s.thieves[thief]));
                    if word(mem.begin) == word(begin) {
                        lemma_same_word(begin, mem.begin);
                        assert(t.contents() =~= s.contents().drop_first());
                    } else {
                        assert(t.contents() =~= s.contents());
                    }
                },
                _ => {},
            }
        },
        _ => {
            assert(t.contents() =~= s.contents());
        },
    }
}

/// The invariant holds at every moment of every run. With it, no value is lost and none
/// is got twice: what was pushed is what was got and what is still there.
pub proof fn step_inv<T>(s: State<T>, t: State<T>, step: Step<T>)
    requires
        s.inv(),
        next(s, t, step),
    ensures
        t.inv(),
{
    let mem = s.mem;
    step_contents(s, t, step);
    lemma_accounts(s, t, step);
    match (step, s.owner) {
        (Step::PushRoom, Owner::PushLoaded { value, begin }) => {
            lemma_exact(begin, mem.end);
            lemma_grown_cap(mem.cap);
            assert forall|k: int| 0 <= k < t.thieves.len() implies t.thief_ok(
                #[trigger] t.thieves[k],
            ) by {
                assert(s.thief_ok(s.thieves[k]));
                if let Thief::Read { begin: b, value: v } = s.thieves[k] {
                    if b == mem.begin {
                        assert(t.mem.at(b) == mem.at(b));
                    }
                }
            }
        },
        (Step::PushWrite, Owner::PushReady { value }) => {
            assert forall|k: int| 0 <= k < t.thieves.len() implies t.thief_ok(
                #[trigger] t.thieves[k],
            ) by {
                assert(s.thief_ok(s.thieves[k]));
                if let Thief::Read { begin: b, value: v } = s.thieves[k] {
                    if b == mem.begin {
                        lemma_slots_distinct(b, mem.end, mem.cap);
                    }
                }
            }
        },
        (Step::PopLoad, Owner::PopLowered { end }) => {
            lemma_exact(mem.begin, end);
            assert forall|k: int| 0 <= k < t.thieves.len() implies t.thief_ok(
                #[trigger] t.thieves[k],
            ) by {
                assert(s.thief_ok(s.thieves[k]));
            }
        },
        (Step::PopExchange, Owner::PopRaceRead { at, value }) => {
            if word(mem.begin) == word(at) {
                lemma_same_word(at, mem.begin);
            }
            assert forall|k: int| 0 <= k < t.thieves.len() implies t.thief_ok(
                #[trigger] t.thieves[k],
            ) by {
                assert(s.thief_ok(s.thieves[k]));
            }
        },
        (Step::StealCheck { thief }, _) => {
            assert(s.thief_ok(s.thieves[thief]));
            if let Thief::Loaded { begin } = s.thieves[thief] {
                if mem.end <= begin {
                    lemma_exact(begin, mem.end);
                }
            }
            assert forall|k: int| 0 <= k < t.thieves.len() implies t.thief_ok(
                #[trigger] t.thieves[k],
            ) by {
                assert(s.thief_ok(s.thieves[k]));
            }
        },
        (Step::StealExchange { thief }, _) => {
            assert(s.thief_ok(s.thieves[thief]));
            if let Thief::Read { begin, value } = s.thieves[thief] {
                if word(mem.begin) == word(begin) {
                    lemma_same_word(begin, mem.begin);
                }
            }
            assert forall|k: int| 0 <= k < t.thieves.len() implies t.thief_ok(
                #[trigger] t.thieves[k],
            ) by {
                assert(s.thief_ok(s.thieves[k]));
            }
        },
        _ => {
            assert forall|k: int| 0 <= k < t.thieves.len() implies t.thief_ok(
                #[trigger] t.thieves[k],
            ) by {
                assert(s.thief_ok(s.thieves[k]));
            }
        },
    }
}

proof fn lemma_grown_cap(cap: nat)
    requires
        cap != 0 ==> power_of_two(cap as int) && cap >= MIN_CAP,
        cap <= isize::MAX,
    ensures
        forall|begin: usize, end: usize|
            (#[trigger] spec_push_plan(begin, end, cap as usize)).grow matches Some(grown)
                ==> grown >= MIN_CAP && grown > cap && power_of_two(grown as int),
{
    crate::deque::lemma_min_cap();
    if cap != 0 {
        crate::deque::lemma_pow2_doubles(cap);
    }
}

proof fn lemma_accounts<T>(s: State<T>, t: State<T>, step: Step<T>)
    requires
        s.inv(),
        next(s, t, step),
        puts(s, step) matches Some(value) ==> t.contents() == s.contents().push(value),
        gets(s, step) matches Some(value) ==> s.contents().len() > 0 && if step
            is StealExchange {
            value == s.contents().first() && t.contents() == s.contents().drop_first()
        } else {
            value == s.contents().last() && t.contents() == s.contents().drop_last()
        },
        puts(s, step) is None && gets(s, step) is None ==> t.contents() == s.contents(),
    ensures
        t.pushed == t.taken.add(t.contents().to_multiset()),
{
    broadcast use vstd::seq_lib::group_to_multiset_ensures;

    if gets(s, step) is Some {
        lemma_without_first(s.contents());
        lemma_without_last(s.contents());
    }
    assert(t.pushed =~= t.taken.add(t.contents().to_multiset()));
}

/// A pop reads the value that it was settled to get, and comes back empty-handed only
/// when there was nothing left that it could have got.
pub proof fn pop_outcomes<T>(s: State<T>, t: State<T>, step: Step<T>)
    requires
        s.inv(),
        next(s, t, step),
    ensures
        step is PopRead ==> (s.owner matches Owner::PopTake { at, value } && s.mem.at(at) == value),
        step is PopLoad && t.owner is PopRestore ==> s.contents().len() == 0,
        step is PopExchange && gets(s, step) is None ==> s.contents().len() == 0,
        step is PopExchange ==> (t.owner matches Owner::PopSettle { won, .. } && won == gets(
            s,
            step,
        )),
{
    match (step, s.owner) {
        (Step::PopLoad, Owner::PopLowered { end }) => {
            lemma_exact(s.mem.begin, end);
        },
        (Step::PopExchange, Owner::PopRaceRead { at, value }) => {
            if s.mem.begin == at {
                assert(word(s.mem.begin) == word(at));
            }
        },
        _ => {},
    }
}

/// A steal that finds nothing finds at most the one value that the owner is popping, and
/// a steal that loses its exchange loses it to somebody who got that value.
pub proof fn steal_outcomes<T>(s: State<T>, t: State<T>, step: Step<T>, thief: int)
    requires
        s.inv(),
        next(s, t, step),
        0 <= thief < s.thieves.len(),
    ensures
        step == (Step::<T>::StealCheck { thief }) && t.thieves[thief] is Idle && s.mem.end
            - s.thieves[thief]->Loaded_begin <= isize::MAX ==> s.contents().len() == 0 || (
        s.contents().len() == 1 && (s.owner is PopLowered || s.owner is PopRace
            || s.owner is PopRaceRead)),
        step == (Step::<T>::StealExchange { thief }) && gets(s, step) is None ==> s.mem.begin
            > s.thieves[thief]->Read_begin,
{
    assert(s.thief_ok(s.thieves[thief]));
    match step {
        Step::StealCheck { thief: k } => {
            if k == thief {
                if let Thief::Loaded { begin } = s.thieves[thief] {
                    if s.mem.end - begin <= isize::MAX {
                        lemma_exact(begin, s.mem.end);
                    }
                }
            }
        },
        Step::StealExchange { thief: k } => {},
        _ => {},
    }
}

/// With nobody at work, everything that was pushed and is not in the deque any more was
/// got by somebody.
pub proof fn quiet_accounts<T>(s: State<T>)
    requires
        s.inv(),
        s.owner is Idle,
        s.mem.begin == s.mem.end,
    ensures
        s.pushed == s.taken,
{
    broadcast use vstd::seq_lib::group_to_multiset_ensures;

    assert(s.contents() =~= Seq::<T>::empty());
    assert(s.pushed =~= s.taken);
}

/// A run: each moment but the first comes from the one before it by a step.
pub open spec fn is_run<T>(states: Seq<State<T>>, steps: Seq<Step<T>>) -> bool {
    &&& states.len() == steps.len() + 1
    &&& init(states[0])
    &&& forall|i: int| 0 <= i < steps.len() ==> next(states[i], states[i + 1], #[trigger] steps[i])
}

/// At every moment of every run, what was pushed so far is what was got so far and what
/// is still there, counted with repetitions.
pub proof fn run_conserves<T>(states: Seq<State<T>>, steps: Seq<Step<T>>, i: int)
    requires
        is_run(states, steps),
        0 <= i < states.len(),
    ensures
        states[i].inv(),
        states[i].pushed == states[i].taken.add(states[i].contents().to_multiset()),
    decreases i,
{
    if i == 0 {
        init_inv(states[0]);
    } else {
        run_conserves(states, steps, i - 1);
        assert(next(states[i - 1], states[i], steps[i - 1]));
        step_inv(states[i - 1], states[i], steps[i - 1]);
    }
}

} // verus!
