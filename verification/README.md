# forkyou

A pool of workers that share work by stealing it from each other: `join`, `for_each`, `map`, `scope`
and `spawn_untracked`.

- `src/` is the library, verified with Verus. What the pool does is decided there.
  - The data structures, as their owner sees them: `deque`, `sleeper`, `latch`, `stack_task`,
    `runtime`, `lifecycle`, `scope`, `state_cache`, `spliterator`, `splitter`, `rng`.
  - The protocols between threads, as functions from the step that a thread has taken, and what came
    of it, to the next one: `Latch::wait_slow_path`, `main_step`, `StealScan`, `init_step`,
    `terminate_step`, and the plans of `deque`.
  - What holds of these protocols whatever the order of the steps: `deque::race`, `latch::handshake`,
    `lifecycle::claims`, `runtime::parking`, `scope::counting`, `stack_task::handover`. All threads
    see the steps in the same order there. Weaker memory orders are not modelled.
  - Work that is shared: `join`, `for_each` and `map` are proved for any worker that implements
    `Fork`, whoever steals what. Used as they are, they run on the calling thread.
  - What a thread or the process has one of is an argument: the arena of `scope`, the `Process`.
- `app/` has the threads: it does what the library decides, with atomics and locks, and implements
  `Fork` for real workers.
- `tests/` runs the library.

The vectors, the arena and the hash are those of `sti`. What is trusted of them is stated in
`src/sti_vec.rs`, `src/scope.rs` and `src/hash.rs`.
