//! How often work is split before it is done.

use vstd::prelude::*;

verus! {

/// Decides whether a piece of work is split in two.
///
/// It starts out with the number of tasks that are wanted, halves it at each split, and
/// stops at one. A piece that was stolen is a sign that others are idle: it is split
/// again, as if all over.
#[derive(Clone, Copy, Debug)]
pub struct Splitter {
    num_tasks: usize,
}

/// Whether a piece of `len` items is split.
pub open spec fn splits(num_tasks: nat, len: nat, stolen: Option<usize>) -> bool {
    len >= 2 && (stolen is Some || num_tasks >= 2)
}

/// The number of tasks that is wanted of each half.
pub open spec fn tasks_after_split(num_tasks: nat, stolen: Option<usize>) -> nat {
    match stolen {
        Some(workers) => workers as nat,
        None => num_tasks / 2,
    }
}

impl Splitter {
    /// The number of tasks that are still wanted.
    pub closed spec fn view(&self) -> nat {
        self.num_tasks as nat
    }

    /// A splitter for about `num_tasks` tasks.
    pub fn new(num_tasks: usize) -> (splitter: Self)
        ensures
            splitter@ == num_tasks,
    {
        Splitter { num_tasks }
    }

    /// Whether to split a piece of `len` items. If the piece was stolen, `stolen` is the
    /// number of tasks to start over with.
    pub fn try_split(&mut self, len: usize, stolen: Option<usize>) -> (split: bool)
        ensures
            split == splits(old(self)@, len as nat, stolen),
            split == (len >= 2 && (stolen is Some || old(self)@ >= 2)),
            split ==> final(self)@ == match stolen {
                Some(workers) => workers as nat,
                None => old(self)@ / 2,
            },
            !split ==> final(self)@ == old(self)@,
            final(self)@ == if split {
                tasks_after_split(old(self)@, stolen)
            } else {
                old(self)@
            },
    {
        if len < 2 {
            return false;
        }
        if let Some(num_tasks) = stolen {
            self.num_tasks = num_tasks;
            return true;
        }
        if self.num_tasks >= 2 {
            self.num_tasks = self.num_tasks / 2;
            return true;
        }
        false
    }
}

/// The number of pieces that work of `len` items is done in, if none of them is stolen.
pub open spec fn pieces(num_tasks: nat, len: nat) -> nat
    decreases num_tasks,
{
    if splits(num_tasks, len, None) {
        let half = tasks_after_split(num_tasks, None);
        pieces(half, len / 2) + pieces(half, (len - len / 2) as nat)
    } else {
        1
    }
}

/// Undisturbed, work is not done in more pieces than were asked for.
pub proof fn pieces_bounded(num_tasks: nat, len: nat)
    ensures
        1 <= pieces(num_tasks, len),
        pieces(num_tasks, len) <= num_tasks || pieces(num_tasks, len) == 1,
    decreases num_tasks,
{
    if splits(num_tasks, len, None) {
        pieces_bounded(num_tasks / 2, len / 2);
        pieces_bounded(num_tasks / 2, (len - len / 2) as nat);
    }
}

/// Both halves of a piece that is split have an item, and together they have all.
pub proof fn halves(num_tasks: nat, len: nat, stolen: Option<usize>)
    requires
        splits(num_tasks, len, stolen),
    ensures
        0 < len / 2 < len,
        0 < len - len / 2 < len,
{
}

/// Undisturbed, work with enough items is done in more than half as many pieces as were asked for.
pub proof fn pieces_suffice(num_tasks: nat, len: nat)
    requires
        num_tasks <= len,
    ensures
        2 * pieces(num_tasks, len) > num_tasks,
    decreases num_tasks,
{
    if num_tasks >= 2 {
        pieces_suffice(num_tasks / 2, len / 2);
        pieces_suffice(num_tasks / 2, (len - len / 2) as nat);
        if num_tasks % 2 == 1 {
            let half = num_tasks / 2;
            assert(2 * pieces(half, len / 2) >= half + 1);
        }
    }
}

/// A piece that was stolen is split if it can be, however little is left to split of it otherwise, and
/// its halves are for as many tasks as there are workers.
pub proof fn stolen_starts_over(num_tasks: nat, len: nat, workers: usize)
    ensures
        splits(num_tasks, len, Some(workers)) <==> len >= 2,
        tasks_after_split(num_tasks, Some(workers)) == workers,
{
}

/// A piece that was not stolen is split as long as more than one task is wanted of it, and its halves
/// are for half as many.
pub proof fn halves_the_tasks(num_tasks: nat, len: nat)
    ensures
        splits(num_tasks, len, None) <==> len >= 2 && num_tasks >= 2,
        tasks_after_split(num_tasks, None) == num_tasks / 2,
{
}

} // verus!
