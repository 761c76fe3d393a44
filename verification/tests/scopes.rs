use sti::sync::spin_lock::SpinLock;

use forkyou::scope::{
    finished_last, must_wait, scope_in, ScopeArena, ScopeState, SCOPE_ARENA_INITIAL_SIZE,
};

#[test]
fn scope_scoped() {
    let the_result = 42;
    let result = forkyou::scope(&mut ScopeArena::new(), |scope| {
        let result = &*scope.arena().alloc_new(SpinLock::new(None));

        scope
            .spawn(|| {
                *result.lock() = Some(the_result);
            })
            .join();

        scope
            .spawn(|| {
                return result.lock().unwrap();
            })
            .join()
    });
    assert_eq!(result, 42);
}

#[test]
fn task_scoped() {
    let the_result = 42;
    let result = forkyou::scope(&mut ScopeArena::new(), |scope| {
        let result = &*scope.arena().alloc_new(SpinLock::new(None));

        scope
            .spawn(|| {
                *result.lock() = Some(the_result);
            })
            .join();

        scope
            .spawn(|| {
                return result.lock().unwrap();
            })
            .join()
    });
    assert_eq!(result, 42);
}

#[test]
fn scoped_nop() {
    forkyou::scope(&mut ScopeArena::new(), |_| {});

    forkyou::scope(&mut ScopeArena::new(), |scope| {
        scope.spawn(|| {});
    });

    forkyou::scope(&mut ScopeArena::new(), |scope| {
        scope.spawn(|| {
            forkyou::scope(&mut ScopeArena::new(), |_| {});
        });
    });

    forkyou::scope(&mut ScopeArena::new(), |scope| {
        scope.spawn(|| {
            forkyou::scope(&mut ScopeArena::new(), |scope| {
                scope.spawn(|| {});
            });
        });
    });
}

#[test]
fn scoped_read_bool() {
    forkyou::scope(&mut ScopeArena::new(), |scope| {
        let mut i = 0;
        loop {
            let a = scope.spawn(move || i < 100);
            let b = scope.spawn(move || i < 99);
            let c = scope.spawn(move || i < 98);
            let d = scope.spawn(move || i < 97);
            let e = scope.spawn(move || i < 96);

            if a.join() & b.join() & c.join() & d.join() & e.join() {
                i += 5;
            } else {
                break;
            }
        }
    });
}

#[test]
fn tasks_can_borrow_locals_from_outside() {
    let foo = 42;
    let bar = forkyou::scope(&mut ScopeArena::new(), |scope| scope.spawn(|| foo).join());
    assert_eq!(bar, 42);
}

#[test]
fn a_scope_can_assign_locals_from_outside() {
    let mut foo = None;
    forkyou::scope(&mut ScopeArena::new(), |_| {
        foo = Some(42);
    });
    assert_eq!(foo, Some(42));
}

#[test]
fn a_task_can_assign_locals_from_outside() {
    let mut foo = None;
    forkyou::scope(&mut ScopeArena::new(), |scope| {
        scope.spawn(|| foo = Some(42));
    });
    assert_eq!(foo, Some(42));
}

#[test]
fn nested_scopes() {
    let mut arena = ScopeArena::new();
    let before = arena.current_block_used();

    let result = forkyou::scope(&mut arena, |scope| {
        assert_eq!(scope.arena().total_allocated(), SCOPE_ARENA_INITIAL_SIZE);

        let n0 = scope.arena().current_block_used();
        let x = scope.arena().alloc_new(33);
        let n1 = scope.arena().current_block_used();
        assert_eq!(n1 - n0, 4);

        let (y, n4) = scope_in(scope.arena(), |scope| {
            let n2 = scope.arena().current_block_used();
            // it is the same arena.
            assert_eq!(n2, n1);
            let x = scope.arena().alloc_new(36);
            let n3 = scope.arena().current_block_used();
            assert_eq!(n3 - n2, 4);

            return (*x, n3);
        });
        assert_eq!(scope.arena().current_block_used(), n4);

        return *x + y;
    });
    assert_eq!(result, 69);

    // all is given up once the outermost scope is left.
    assert_eq!(arena.current_block_used(), before);
    assert_eq!(arena.total_allocated(), SCOPE_ARENA_INITIAL_SIZE);
}

#[test]
fn the_memory_of_a_scope() {
    let mut arena = ScopeArena::new();
    assert_eq!(arena.min_block_size(), 65536);
    assert_eq!(arena.total_allocated(), 65536);
    assert_eq!(arena.current_block_used(), 32);

    // what is moved into the arena adds to it, and does not change the least size.
    forkyou::scope(&mut arena, |scope| {
        let x = scope.arena().alloc_new([7u8; 100_000]);
        assert_eq!(x[99_999], 7);
        assert_eq!(scope.arena().min_block_size(), SCOPE_ARENA_INITIAL_SIZE);
        assert_eq!(scope.arena().total_allocated(), 65536 + 2 * 65536);
        assert_eq!(scope.arena().current_block_used(), 32 + 100_000);
    });
    assert_eq!(arena.total_allocated(), 65536);

    let memory = arena.open();
    memory.alloc_new(1u64);
    assert_eq!(memory.current_block_used(), 40);
    assert_eq!(arena.current_block_used(), 40);
    arena.reset();
    assert_eq!(arena.current_block_used(), 32);
}

#[test]
fn the_last_one_of_a_scope() {
    // nothing was spawned.
    let mut state = ScopeState::new();
    assert!(!state.left());

    // the task is done first.
    let mut state = ScopeState::new();
    state.spawned();
    assert!(!state.finished());
    assert!(!state.left());

    // the scope is left first.
    let mut state = ScopeState::new();
    state.spawned();
    state.spawned();
    assert!(!state.finished());
    assert!(state.left());
    assert!(state.finished());

    assert!(finished_last(1) && !finished_last(2));
    assert!(!must_wait(1) && must_wait(2));
}

#[test]
fn the_latch_of_a_scope_is_set_once_if_somebody_waits() {
    // three tasks, and the scope is left after `before` of them.
    for before in 0..=3 {
        let mut state = ScopeState::new();
        for _ in 0..3 {
            state.spawned();
        }
        let mut sets = 0;
        for _ in 0..before {
            sets += state.finished() as u32;
        }
        assert_eq!(sets, 0);
        let waits = state.left();
        assert_eq!(waits, before < 3);
        for _ in before..3 {
            sets += state.finished() as u32;
        }
        assert_eq!(sets, waits as u32);
    }
}
