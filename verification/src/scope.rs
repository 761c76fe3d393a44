//! Tasks that are done when the scope that they were spawned in is left.

pub mod counting;

use core::marker::PhantomData;

use vstd::layout::{align_of, size_of};
use vstd::prelude::*;

use crate::join::LoneWorker;
use crate::latch::{Latch, LATCH_WAIT};
use crate::stack_task::{StackTask, StackTaskResult};

verus! {

/// The size of the first block of memory of a scope.
pub const SCOPE_ARENA_INITIAL_SIZE: usize = 64 * 1024;

/// The greatest alignment of what an arena holds.
pub const ARENA_MAX_ALIGN: usize = 32;

/// What an arena keeps for itself of each block of memory.
pub const ARENA_HEADER_SIZE: usize = 32;

/// Whether an arena can hold a value of this type.
pub open spec fn arena_holds<T>() -> bool {
    &&& align_of::<T>() <= ARENA_MAX_ALIGN
    &&& size_of::<T>() <= usize::MAX / 4 + 1 - ARENA_HEADER_SIZE
}

proof fn lemma_arena_holds_i32()
    ensures
        arena_holds::<i32>(),
        size_of::<i32>() == 4,
{
    broadcast use {
        vstd::layout::layout_of_primitives,
        vstd::layout::group_align_properties,
    };

    if align_of::<i32>() > 4 {
        vstd::arithmetic::div_mod::lemma_small_mod(4, align_of::<i32>());
    }
}

/// A `sti::arena::Arena`. Nothing is visible of it here.
#[verifier::external_body]
struct InnerArena {
    arena: sti::arena::Arena,
}

/// An arena of `sti`, with what is known of it.
///
/// The arena itself is only touched by the few functions here, and one of [`ScopeArena`], that call
/// into `sti`. Each of them says what it does to the least size of the blocks, to the size of the first one, which is zero as
/// long as there is none, and to whether anything is in them. Like everything in `sti`, they panic
/// when memory runs out.
struct BlockArena {
    inner: InnerArena,
    min_block_size: Ghost<nat>,
    first_block_size: Ghost<nat>,
    /// Whether it is known that nothing is in the arena.
    empty: Ghost<bool>,
}

impl BlockArena {
    /// `sti::arena::Arena::new`: an arena without any memory. Its blocks are to have a size of 4096
    /// bytes at least.
    #[verifier::external_body]
    fn new() -> (arena: Self)
        ensures
            arena.min_block_size@ == 4096,
            arena.first_block_size@ == 0,
            arena.empty@,
    {
        BlockArena {
            inner: InnerArena { arena: sti::arena::Arena::new() },
            min_block_size: Ghost(4096),
            first_block_size: Ghost(0),
            empty: Ghost(true),
        }
    }

    /// `sti::arena::Arena::min_block_size`: sets the least size of the blocks of memory.
    #[verifier::external_body]
    fn set_min_block_size(&mut self, size: usize)
        ensures
            final(self).min_block_size@ == size,
            final(self).first_block_size@ == old(self).first_block_size@,
            final(self).empty@ == old(self).empty@,
    {
        self.inner.arena.min_block_size.set(size)
    }

    /// `sti::arena::Arena::min_block_size`: reads the least size of the blocks of memory.
    #[verifier::external_body]
    fn min_block_size(&self) -> (size: usize)
        ensures
            size == self.min_block_size@,
    {
        self.inner.arena.min_block_size.get()
    }

    /// `sti::arena::Arena::current_block_used`: how much of the current block is used, its header
    /// included. Without anything in the arena, that is all, and the first block is the current one.
    #[verifier::external_body]
    fn current_block_used(&self) -> (used: usize)
        requires
            self.first_block_size@ > 0,
        ensures
            used >= ARENA_HEADER_SIZE,
            self.empty@ ==> used == ARENA_HEADER_SIZE,
    {
        self.inner.arena.current_block_used()
    }

    /// `sti::arena::Arena::stats`: the sizes of all blocks together. Without anything in the arena,
    /// the first block is the only one.
    #[verifier::external_body]
    fn total_allocated(&self) -> (size: usize)
        requires
            self.first_block_size@ > 0,
        ensures
            size >= self.first_block_size@,
            self.empty@ ==> size == self.first_block_size@,
    {
        self.inner.arena.stats().total_allocated
    }

    /// `sti::arena::Arena::alloc_new`, on an arena without any memory: it asks for a block that is
    /// large enough, and no smaller than the least size, but for the limit on the size of blocks.
    /// It panics if the value is too large, or aligned too strictly.
    #[verifier::external_body]
    fn alloc_first<T>(&mut self, value: T)
        requires
            arena_holds::<T>(),
            size_of::<T>() > 0,
            old(self).first_block_size@ == 0,
        ensures
            final(self).min_block_size@ == old(self).min_block_size@,
            final(self).first_block_size@ == vstd::math::min(
                vstd::math::max(
                    old(self).min_block_size@ as int,
                    ARENA_HEADER_SIZE + size_of::<T>(),
                ),
                usize::MAX / 4 + 1,
            ),
            !final(self).empty@,
    {
        self.inner.arena.alloc_new(value);
    }

    /// `sti::arena::Arena::alloc_new`, on an arena with memory that may have something in it: moves
    /// a value into the arena. It panics if the value is too large, or aligned too strictly.
    #[verifier::external_body]
    fn alloc_new<T>(&self, value: T) -> (place: &mut T)
        requires
            arena_holds::<T>(),
            self.first_block_size@ > 0,
            !self.empty@,
        ensures
            *place == value,
    {
        self.inner.arena.alloc_new(value)
    }
}

/// The arena of a thread, which has its first block, as long as no scope has it. Nothing can be
/// moved into it as it is: see [`ScopeArena::open`].
pub struct ScopeArena {
    arena: BlockArena,
}

impl ScopeArena {
    /// There is a first block.
    #[verifier::type_invariant]
    spec fn inv(&self) -> bool {
        self.spec_first_block_size() > 0
    }

    /// The least size of the blocks of memory that the arena asks for.
    pub closed spec fn spec_min_block_size(&self) -> nat {
        self.arena.min_block_size@
    }

    /// The size of the first block of memory.
    pub closed spec fn spec_first_block_size(&self) -> nat {
        self.arena.first_block_size@
    }

    /// Whether nothing is in the arena, and its first block is all the memory that it has.
    pub closed spec fn spec_empty(&self) -> bool {
        self.arena.empty@
    }

    /// What things are moved into.
    pub closed spec fn spec_memory(&self) -> ScopeMemory<'_> {
        ScopeMemory { arena: &BlockArena { empty: Ghost(false), ..self.arena } }
    }

    /// `sti::arena::Arena::reset`: gives up everything in the arena, and all of its memory but the
    /// first block. The least size of the blocks stays.
    #[verifier::external_body]
    fn reset_inner(&mut self)
        ensures
            final(self).spec_min_block_size() == old(self).spec_min_block_size(),
            final(self).spec_first_block_size() == old(self).spec_first_block_size(),
            final(self).spec_empty(),
    {
        self.arena.inner.arena.reset()
    }

    /// What is known of the memory of any arena: its blocks are those of the arena.
    pub proof fn lemma_memory(&self)
        ensures
            self.spec_memory().spec_min_block_size() == self.spec_min_block_size(),
            self.spec_memory().spec_first_block_size() == self.spec_first_block_size(),
    {
    }

    /// An arena for scopes, with its first block of memory and nothing in it. The blocks that are
    /// added to it are no smaller.
    pub fn new() -> (arena: Self)
        ensures
            arena.spec_min_block_size() == SCOPE_ARENA_INITIAL_SIZE,
            arena.spec_first_block_size() == SCOPE_ARENA_INITIAL_SIZE,
            arena.spec_first_block_size() == 65536,
            arena.spec_empty(),
    {
        proof {
            lemma_arena_holds_i32();
        }
        let mut arena = BlockArena::new();
        arena.set_min_block_size(SCOPE_ARENA_INITIAL_SIZE);
        arena.alloc_first(1i32);
        let mut arena = ScopeArena { arena };
        arena.reset();
        arena
    }

    /// The least size of the blocks of memory.
    pub fn min_block_size(&self) -> (size: usize)
        ensures
            size == self.spec_min_block_size(),
    {
        self.arena.min_block_size()
    }

    /// How much of the current block of memory is used, what the arena keeps for itself included.
    pub fn current_block_used(&self) -> (used: usize)
        ensures
            used >= ARENA_HEADER_SIZE,
            self.spec_empty() ==> used == ARENA_HEADER_SIZE,
    {
        proof {
            use_type_invariant(self);
        }
        self.arena.current_block_used()
    }

    /// The sizes of all blocks of memory together.
    pub fn total_allocated(&self) -> (size: usize)
        ensures
            size >= self.spec_first_block_size(),
            self.spec_empty() ==> size == self.spec_first_block_size(),
    {
        proof {
            use_type_invariant(self);
        }
        self.arena.total_allocated()
    }

    /// What things can be moved into. From then on, the arena may have something in it.
    pub fn open(&mut self) -> (memory: ScopeMemory<'_>)
        ensures
            memory == old(self).spec_memory(),
            final(self).spec_memory() == old(self).spec_memory(),
            final(self).spec_min_block_size() == old(self).spec_min_block_size(),
            final(self).spec_first_block_size() == old(self).spec_first_block_size(),
            !final(self).spec_empty(),
    {
        proof {
            use_type_invariant(&*self);
        }
        self.arena.empty = Ghost(false);
        ScopeMemory { arena: &self.arena }
    }

    /// Gives up everything in the arena, and all of its memory but the first block.
    pub fn reset(&mut self)
        ensures
            final(self).spec_min_block_size() == old(self).spec_min_block_size(),
            final(self).spec_first_block_size() == old(self).spec_first_block_size(),
            final(self).spec_empty(),
    {
        self.reset_inner()
    }
}

/// The memory of scopes, on the arena of their thread.
///
/// How much memory there is, and how much of it is used, is not stated here: both change whenever
/// something is moved into it. They are known again once nobody has this any more.
#[derive(Clone, Copy)]
pub struct ScopeMemory<'s> {
    arena: &'s BlockArena,
}

impl<'s> ScopeMemory<'s> {
    /// There is a first block, and something may be in it.
    #[verifier::type_invariant]
    spec fn inv(&self) -> bool {
        self.spec_first_block_size() > 0 && !self.arena.empty@
    }

    /// The least size of the blocks of memory.
    pub closed spec fn spec_min_block_size(&self) -> nat {
        self.arena.min_block_size@
    }

    /// The size of the first block of memory.
    pub closed spec fn spec_first_block_size(&self) -> nat {
        self.arena.first_block_size@
    }

    /// The least size of the blocks of memory.
    pub fn min_block_size(&self) -> (size: usize)
        ensures
            size == self.spec_min_block_size(),
    {
        self.arena.min_block_size()
    }

    /// How much of the current block of memory is used, what the arena keeps for itself included.
    pub fn current_block_used(&self) -> (used: usize)
        ensures
            used >= ARENA_HEADER_SIZE,
    {
        proof {
            use_type_invariant(self);
        }
        self.arena.current_block_used()
    }

    /// The sizes of all blocks of memory together.
    pub fn total_allocated(&self) -> (size: usize)
        ensures
            size >= self.spec_first_block_size(),
    {
        proof {
            use_type_invariant(self);
        }
        self.arena.total_allocated()
    }

    /// Moves a value into the memory.
    pub fn alloc_new<T>(self, value: T) -> (place: &'s mut T)
        requires
            arena_holds::<T>(),
        ensures
            *place == value,
    {
        proof {
            use_type_invariant(&self);
        }
        self.arena.alloc_new(value)
    }
}

/// Whether whoever makes the count of a scope go down from this one is the last.
pub open spec fn spec_last(prev_running: nat) -> bool {
    prev_running == 1
}

/// Whether a task that made the count go down from this one sets the latch of its scope. It does
/// if it is the last: the scope was left before, and waits.
pub fn finished_last(prev_running: usize) -> (last: bool)
    requires
        prev_running > 0,
    ensures
        last == spec_last(prev_running as nat),
{
    prev_running == 1
}

/// Whether a thread that leaves a scope, and so made its count go down from this one, has to wait
/// for the latch. It has to if there are tasks left.
pub fn must_wait(prev_running: usize) -> (wait: bool)
    requires
        prev_running > 0,
    ensures
        wait == !spec_last(prev_running as nat),
{
    prev_running != 1
}

/// The count of a scope: the tasks that have not finished, and one more until the scope is left.
#[derive(Clone, Copy, Debug)]
pub struct ScopeState {
    running: usize,
}

impl ScopeState {
    pub closed spec fn view(&self) -> nat {
        self.running as nat
    }

    /// The count of a scope that was just entered.
    pub fn new() -> (state: Self)
        ensures
            state@ == 1,
    {
        ScopeState { running: 1 }
    }

    /// Counts a task that is spawned.
    pub fn spawned(&mut self)
        requires
            old(self)@ < usize::MAX,
        ensures
            final(self)@ == old(self)@ + 1,
    {
        self.running = self.running + 1;
    }

    /// Counts a task that has finished, and returns whether it sets the latch.
    pub fn finished(&mut self) -> (set: bool)
        requires
            old(self)@ > 0,
        ensures
            final(self)@ == old(self)@ - 1,
            set == spec_last(old(self)@),
    {
        let prev: usize = self.running;
        self.running = prev - 1;
        finished_last(prev)
    }

    /// Counts that the scope is left, and returns whether the thread has to wait.
    pub fn left(&mut self) -> (wait: bool)
        requires
            old(self)@ > 0,
        ensures
            final(self)@ == old(self)@ - 1,
            wait == !spec_last(old(self)@),
    {
        let prev: usize = self.running;
        self.running = prev - 1;
        must_wait(prev)
    }
}

/// A scope on a thread that is alone: what is spawned runs right away.
///
/// Tasks can borrow what lives as long as `'p`, which is longer than the scope. They cannot borrow
/// what is local to it: on other threads, they may not be done before it is gone.
pub struct Scope<'s, 'p: 's> {
    memory: ScopeMemory<'s>,
    state: ScopeState,
    latch: Latch,
    _s: PhantomData<&'s mut &'s ()>,
    _p: PhantomData<&'p ()>,
}

impl<'s, 'p: 's> Scope<'s, 'p> {
    /// There is no task left.
    #[verifier::type_invariant]
    spec fn inv(&self) -> bool {
        self.state@ == 1 && self.latch@ == LATCH_WAIT
    }

    pub closed spec fn spec_arena(&self) -> ScopeMemory<'s> {
        self.memory
    }

    /// The memory of the scope.
    pub fn arena(&self) -> (memory: ScopeMemory<'s>)
        ensures
            memory == self.spec_arena(),
    {
        self.memory
    }

    /// Spawns a task.
    pub fn spawn<R, F: FnOnce() -> R + Send + 'p>(&self, f: F) -> (task: ScopeTask<R>)
        requires
            f.requires(()),
        ensures
            f.ensures((), task@),
    {
        proof {
            use_type_invariant(self);
        }
        let mut state: ScopeState = self.state;
        let mut latch: Latch = self.latch;
        let g = move |_worker: &LoneWorker, _stolen: bool, _unit: ()| -> (r: R)
            ensures
                f.ensures((), r),
            { f() };
        let mut task: StackTask<R, _> = StackTask::new_on_worker(0, g);
        state.spawned();
        task.run(&LoneWorker, 0, ());
        if state.finished() {
            latch.set(true);
        }
        // the scope is as it was before.
        assert(state@ == self.state@ && latch@ == self.latch@);
        ScopeTask { handle: task.handle() }
    }
}

/// A task of a scope.
pub struct ScopeTask<R> {
    handle: StackTaskResult<R>,
}

impl<R> ScopeTask<R> {
    /// The task is done, and its result is there.
    #[verifier::type_invariant]
    spec fn inv(&self) -> bool {
        self.handle.wf() && self.handle@ is Some
    }

    /// What the task returns.
    pub closed spec fn view(&self) -> R {
        self.handle@->0
    }

    /// Waits for the task, and returns what it returned.
    pub fn join(self) -> (result: R)
        ensures
            result == self@,
    {
        proof {
            use_type_invariant(&self);
        }
        self.handle.join().unwrap()
    }
}

/// Calls `f` with a scope on the arena of this thread, and returns what it returned, once all tasks
/// are done that it has spawned there. Then everything is given up that was moved into the arena.
///
/// A scope inside of it has the same memory: see [`scope_in`].
pub fn scope<'p, R: Send, F: for <'s>FnOnce(&Scope<'s, 'p>) -> R + Send>(
    arena: &mut ScopeArena,
    f: F,
) -> (result: R)
    requires
        forall|scope: &Scope<'_, 'p>|
            scope.spec_arena() == old(arena).spec_memory() ==> #[trigger] f.requires((scope,)),
    ensures
        exists|scope: &Scope<'_, 'p>|
            scope.spec_arena() == old(arena).spec_memory() && #[trigger] f.ensures(
                (scope,),
                result,
            ),
        final(arena).spec_min_block_size() == old(arena).spec_min_block_size(),
        final(arena).spec_first_block_size() == old(arena).spec_first_block_size(),
        final(arena).spec_empty(),
{
    let result = scope_in(arena.open(), f);
    arena.reset();
    result
}

/// Calls `f` with a scope that shares the memory of the scope around it, and returns what it
/// returned, once all tasks are done that it has spawned there. What it has moved into the memory
/// can be got at no more, but stays there until the outermost scope is left.
pub fn scope_in<'p, R: Send, F: for <'s>FnOnce(&Scope<'s, 'p>) -> R + Send>(
    memory: ScopeMemory<'_>,
    f: F,
) -> (result: R)
    requires
        forall|scope: &Scope<'_, 'p>|
            scope.spec_arena() == memory ==> #[trigger] f.requires((scope,)),
    ensures
        exists|scope: &Scope<'_, 'p>|
            scope.spec_arena() == memory && #[trigger] f.ensures((scope,), result),
{
    let scope = Scope {
        memory,
        state: ScopeState::new(),
        latch: Latch::new_on_worker(0),
        _s: PhantomData,
        _p: PhantomData,
    };
    assert(scope.spec_arena() == memory);
    let result = f(&scope);
    proof {
        use_type_invariant(&scope);
    }
    // all tasks are done, so there is nothing to wait for.
    let mut state: ScopeState = scope.state;
    let wait: bool = state.left();
    assert(!wait);
    result
}

} // verus!
