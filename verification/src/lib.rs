//! A pool of workers that share work by stealing it from each other.
//!
//! Work is given to the pool by [`join`], [`for_each`], [`map::map`], [`scope`] and
//! [`spawn_untracked`]. A worker keeps the tasks that it submits in a [`deque`] of its own, takes
//! them from its one end, and leaves the other end to those that have nothing to do.
//!
//! What the pool does is decided here, and what is decided is stated and proved: of the data
//! structures as their owner sees them, and of the protocols between threads as the steps that each
//! thread takes. What holds of the protocols whatever the order of the steps is proved in
//! [`deque::race`], [`latch::handshake`], [`lifecycle::claims`], [`runtime::parking`],
//! [`scope::counting`] and [`stack_task::handover`]. There each step is one access to memory that all threads see in the same
//! order. The threads themselves, and the memory that they share, are not here.

pub mod deque;
pub mod for_each;
pub mod hash;
pub mod join;
pub mod latch;
pub mod lifecycle;
pub mod map;
pub mod rng;
pub mod runtime;
pub mod scope;
pub mod sleeper;
pub mod spliterator;
pub mod splitter;
pub mod stack_task;
pub mod state_cache;
pub mod sti_vec;
pub mod task;
pub mod untracked;
pub mod worker;

pub use for_each::for_each;
pub use join::{join, join_on_worker, on_worker, Fork, LoneWorker};
pub use lifecycle::{Process, Terminator};
pub use map::{map_core, map_into};
pub use scope::scope;
pub use spliterator::{
    IntoSpliterator, IntoSpliteratorRef, IntoSpliteratorRefMut, Spliterator, SpliteratorExt,
};
pub use state_cache::StateCache;
pub use task::Task;
pub use untracked::spawn_untracked;

use vstd::prelude::*;

verus! {

/// The number of workers of a pool: one for each processor, as far as that is known, and one
/// otherwise.
pub fn ncpu(available: Option<usize>) -> (n: usize)
    ensures
        n == match available {
            Some(n) => n,
            None => 1,
        },
{
    match available {
        Some(n) => n,
        None => 1,
    }
}

} // verus!
