use std::sync::{Arc, Mutex};

use forkyou::lifecycle::{
    init_step, terminate_step, InitStep, TerminateStep, INIT, INITING, UNINIT,
};
use forkyou::rng::XorShift32;
use forkyou::runtime::Runtime;
use forkyou::worker::{main_step, MainStep, ScanStep, StealScan};
use forkyou::{spawn_untracked, Process, Task, Terminator};

/// Ends the runtime of a process, once its workers have seen that it terminates.
fn terminate<F: FnOnce() + Send>(terminator: Terminator, process: &mut Process<Task<F>>) {
    terminator.signal(process);
    let runtime = process.expect();
    for worker in 0..runtime.num_workers() {
        assert_eq!(runtime.main(worker), MainStep::Exit);
        let last = runtime.worker_exit();
        assert_eq!(last, worker + 1 == runtime.num_workers());
    }
    assert_eq!(runtime.running_workers(), 0);
    terminator.finish(process);
}

#[test]
fn graceful_shutdown() {
    let addresses = vec![0x1000, 0x2000];
    let mut process: Process<Task<fn()>> = Process::new();
    {
        let terminator = Terminator::new(&mut process, None, &addresses);
        assert_eq!(process.state(), INIT);
        terminate(terminator, &mut process);
    }

    assert_eq!(process.state(), UNINIT);
}

#[test]
fn untracked_untracked() {
    let addresses = vec![0x1000, 0x2000, 0x3000];
    let mut process = Process::new();
    let terminator = Terminator::new(&mut process, None, &addresses);

    let result = Arc::new(Mutex::new(None));

    let shared = result.clone();
    spawn_untracked(&mut process, None, &addresses, move || {
        let mut lock = shared.lock().unwrap();
        assert!(lock.is_none());
        *lock = Some(42);
    });

    assert_eq!(process.expect().main(1), MainStep::Sleep);
    process.expect().unprime(1);

    let result = loop {
        let lock = result.lock().unwrap();
        if let Some(result) = *lock {
            break result;
        }
    };
    assert_eq!(result, 42);

    terminate(terminator, &mut process);
    assert_eq!(process.state(), UNINIT);
}

#[test]
fn task_untracked() {
    let addresses = vec![0x1000, 0x2000];
    let mut process = Process::new();
    assert_eq!(process.state(), UNINIT);

    let result = Arc::new(Mutex::new(None));

    let shared = result.clone();
    spawn_untracked(&mut process, None, &addresses, move || {
        let mut lock = shared.lock().unwrap();
        assert!(lock.is_none());
        *lock = Some(42);
    });
    assert_eq!(process.state(), INIT);

    process.expect().main(0);

    let result = loop {
        let lock = result.lock().unwrap();
        if let Some(result) = *lock {
            break result;
        }
    };
    assert_eq!(result, 42);
}

#[test]
fn a_worker_runs_its_own_tasks_first() {
    let addresses = vec![1, 2, 3];
    let mut runtime = Runtime::init(&addresses);
    runtime.submit_task(Some(0), "a");
    runtime.submit_task(Some(0), "b");
    runtime.submit_task(Some(2), "c");
    runtime.submit_task(None, "d");
    assert!(runtime.tasks_pending());

    assert_eq!(runtime.find_task(0), Some("b"));
    // steals the oldest ones, from whoever comes first.
    let one = runtime.find_task(1);
    let two = runtime.find_task(1);
    assert!((one, two) == (Some("a"), Some("c")) || (one, two) == (Some("c"), Some("a")));
    // what came from outside comes last.
    assert_eq!(runtime.find_task(1), Some("d"));
    assert!(!runtime.tasks_pending());
    assert_eq!(runtime.find_task(0), None);
    assert_eq!(runtime.find_task(1), None);
}

#[test]
fn a_thief_starts_where_its_random_number_says() {
    let addresses = vec![1, 2, 3, 4];
    for seed in 1..50 {
        let mut runtime = Runtime::init(&addresses);
        for worker in 0..4 {
            runtime.submit_task(Some(worker), worker);
        }
        let mut rng = XorShift32::from_seed(seed);
        let first = XorShift32::from_seed(seed).next_n(4) as usize;
        let expected = if first == 1 { 2 } else { first };
        assert_eq!(runtime.steal_task(&mut rng, 1), Some(expected));
    }
}

#[test]
fn nobody_steals_from_itself() {
    let addresses = vec![1];
    let mut runtime = Runtime::init(&addresses);
    runtime.submit_task(Some(0), 7);
    let mut rng = XorShift32::new();
    assert_eq!(runtime.steal_task(&mut rng, 0), None);
    assert_eq!(runtime.find_task(0), Some(7));
}

#[test]
fn a_sleeping_worker_is_woken_for_a_task_from_outside() {
    let addresses = vec![1, 2, 3];
    let mut runtime = Runtime::init(&addresses);
    assert_eq!(runtime.wake_one_worker(), None);

    runtime.prime(1);
    assert!(runtime.worker_sleep(1));
    runtime.prime(2);
    assert!(runtime.worker_sleep(2));

    // a worker keeps its first task to itself.
    runtime.submit_on_worker(0, "a");
    // and has help with the second one.
    runtime.submit_on_worker(0, "b");
    assert!(!runtime.wake(1));
    runtime.worker_awake();

    runtime.inject_task("c");
    assert!(!runtime.wake(2));
    runtime.worker_awake();
    assert_eq!(runtime.wake_one_worker(), None);
}

#[test]
fn workers_that_are_awake_are_not_woken_for_a_second_task() {
    let addresses = vec![1, 2];
    let mut runtime = Runtime::init(&addresses);
    // primed, but not counted as asleep yet: it will look again.
    runtime.prime(1);
    runtime.submit_on_worker(0, "a");
    runtime.submit_on_worker(0, "b");
    assert!(runtime.wake(1));
}

#[test]
fn there_is_one_terminator() {
    let addresses = vec![1];
    let mut runtime: Runtime<u32> = Runtime::init(&addresses);
    assert!(!runtime.has_terminator());
    assert!(!runtime.claim_terminator());
    assert!(runtime.has_terminator());
    assert!(runtime.claim_terminator());
}

#[test]
fn the_last_worker_wakes_the_terminator() {
    let addresses = vec![1, 2];
    let mut runtime: Runtime<u32> = Runtime::init(&addresses);
    runtime.prime(0);
    assert!(!runtime.terminating());
    runtime.begin_termination();
    assert!(runtime.terminating());
    assert!(!runtime.wake(0));
    assert!(!runtime.worker_exit());
    assert!(runtime.worker_exit());
    assert_eq!(runtime.running_workers(), 0);
}

#[test]
fn a_worker_looks_again_before_it_sleeps() {
    let mut steps = vec![MainStep::Search];
    // a task, then none, no termination, but a task that came meanwhile, then neither.
    for yes in [true, false, false, false, false, true, false, false, false, false, false] {
        steps.push(main_step(*steps.last().unwrap(), yes));
    }
    assert_eq!(
        steps,
        vec![
            MainStep::Search,
            MainStep::Run,
            MainStep::Search,
            MainStep::Prime,
            MainStep::CheckTerminating,
            MainStep::CheckPending,
            MainStep::Unprime,
            MainStep::Search,
            MainStep::Prime,
            MainStep::CheckTerminating,
            MainStep::CheckPending,
            MainStep::Sleep,
        ]
    );
    assert_eq!(main_step(MainStep::CheckTerminating, true), MainStep::Exit);
    assert_eq!(main_step(MainStep::Sleep, false), MainStep::Search);
}

#[test]
fn a_round_visits_everybody_else_once() {
    for num_workers in 1..8 {
        for exclude in 0..num_workers {
            for first in 0..num_workers {
                let mut scan = StealScan::new(num_workers, exclude, first);
                let mut visited = Vec::new();
                while let ScanStep::Probe { worker } = scan.step() {
                    visited.push(worker);
                    scan.missed(true);
                }
                assert_eq!(scan.step(), ScanStep::Injector);
                let mut expected = Vec::new();
                for i in 0..num_workers {
                    let worker = (first + i) % num_workers;
                    if worker != exclude {
                        expected.push(worker);
                    }
                }
                assert_eq!(visited, expected);
            }
        }
    }
}

#[test]
fn a_lost_steal_asks_for_another_round() {
    let mut scan = StealScan::new(3, 1, 2);
    assert_eq!(scan.step(), ScanStep::Probe { worker: 2 });
    scan.missed(false);
    assert_eq!(scan.step(), ScanStep::Probe { worker: 0 });
    scan.missed(true);
    assert_eq!(scan.step(), ScanStep::Again);
}

#[test]
fn the_runtime_is_made_by_whoever_claims_it() {
    let mut steps = vec![InitStep::Claim];
    for _ in 0..4 {
        steps.push(init_step(*steps.last().unwrap(), true, INITING));
    }
    assert_eq!(
        steps,
        vec![
            InitStep::Claim,
            InitStep::Make,
            InitStep::Publish,
            InitStep::Announce,
            InitStep::Ready,
        ]
    );

    assert_eq!(init_step(InitStep::Claim, false, INITING), InitStep::Poll);
    assert_eq!(init_step(InitStep::Poll, false, INITING), InitStep::Nap);
    assert_eq!(init_step(InitStep::Nap, false, INITING), InitStep::Poll);
    assert_eq!(init_step(InitStep::Poll, false, INIT), InitStep::Ready);
    assert_eq!(init_step(InitStep::Poll, false, UNINIT), InitStep::Failed);
}

#[test]
fn all_workers_are_woken_to_terminate() {
    let mut steps = vec![TerminateStep::Prime];
    while !matches!(steps.last().unwrap(), TerminateStep::Done) {
        steps.push(terminate_step(*steps.last().unwrap(), 2, 0));
    }
    assert_eq!(
        steps,
        vec![
            TerminateStep::Prime,
            TerminateStep::Signal,
            TerminateStep::Wake { worker: 0 },
            TerminateStep::Wake { worker: 1 },
            TerminateStep::Sleep,
            TerminateStep::CheckRunning,
            TerminateStep::Close,
            TerminateStep::Take,
            TerminateStep::Announce,
            TerminateStep::Done,
        ]
    );
    assert_eq!(terminate_step(TerminateStep::Signal, 0, 0), TerminateStep::Sleep);
    assert_eq!(terminate_step(TerminateStep::CheckRunning, 2, 1), TerminateStep::Failed);
}

#[test]
fn tasks_are_called_with_what_they_hold() {
    let count = Arc::new(Mutex::new(0));
    let shared = count.clone();
    Task::new(move || *shared.lock().unwrap() += 3).call();
    assert_eq!(*count.lock().unwrap(), 3);
}

/// Workers, threads that bring tasks, and one that terminates the pool, in an order that the seed
/// decides. Returns which tasks were run.
fn simulate(seed: u32, num_workers: usize, tasks: u32) -> Vec<u32> {
    let mut order = XorShift32::from_seed(seed);
    let addresses = Vec::from_iter((0..num_workers).map(|i| 64 * i));
    let mut runtime: Runtime<u32> = Runtime::init(&addresses);
    let mut steps = vec![MainStep::Search; num_workers];
    let mut found: Vec<Option<u32>> = vec![None; num_workers];
    let mut asleep = vec![false; num_workers];
    let mut left = vec![false; num_workers];
    let mut ran = Vec::new();
    let mut brought = 0;
    for _ in 0..100_000 {
        let who = order.next_n(num_workers as u32 + 1) as usize;
        if who == num_workers {
            // a thread outside.
            if brought < tasks {
                runtime.inject_task(brought);
                brought += 1;
            } else if ran.len() as u32 == 2 * tasks && !runtime.terminating() {
                runtime.begin_termination();
            }
            continue;
        }
        if left[who] {
            continue;
        }
        let mut yes = false;
        match steps[who] {
            MainStep::Search => {
                found[who] = runtime.find_task(who);
                yes = found[who].is_some();
            }
            MainStep::Run => {
                let task = found[who].take().unwrap();
                ran.push(task);
                // each task from outside submits another one.
                if task < tasks {
                    runtime.submit_task(Some(who), tasks + task);
                }
            }
            MainStep::Prime => runtime.prime(who),
            MainStep::CheckTerminating => yes = runtime.terminating(),
            MainStep::CheckPending => yes = runtime.tasks_pending(),
            MainStep::Unprime => runtime.unprime(who),
            MainStep::Sleep => {
                if !asleep[who] {
                    asleep[who] = true;
                    runtime.worker_sleep(who);
                    continue;
                }
                // woken, if it can be primed without anybody noticing a difference.
                if runtime.wake(who) {
                    runtime.prime(who);
                    continue;
                }
                asleep[who] = false;
                runtime.worker_awake();
            }
            MainStep::Exit => {
                left[who] = true;
                runtime.worker_exit();
                continue;
            }
        }
        steps[who] = main_step(steps[who], yes);
    }
    assert_eq!(runtime.running_workers(), 0);
    ran.sort();
    ran
}

#[test]
fn no_task_is_left_lying() {
    for seed in 1..40 {
        for num_workers in 1..5 {
            let ran = simulate(seed, num_workers, 20);
            assert_eq!(ran, Vec::from_iter(0..40));
        }
    }
}

#[test]
fn nobody_claims_a_runtime_that_is_being_taken_away() {
    let mut state = INIT;
    let mut published = true;
    let mut claims = 0;
    let mut step = TerminateStep::Prime;
    while !matches!(step, TerminateStep::Done) {
        match step {
            TerminateStep::Close => state = INITING,
            TerminateStep::Take => {
                assert!(published);
                published = false;
            }
            TerminateStep::Announce => {
                assert!(!published);
                state = UNINIT;
            }
            _ => {}
        }
        step = terminate_step(step, 3, 0);

        // a thread that needs the runtime, at every moment.
        let after = init_step(InitStep::Claim, state == UNINIT, state);
        if matches!(after, InitStep::Make) {
            assert!(!published);
            assert!(matches!(step, TerminateStep::Done));
            claims += 1;
        }
    }
    assert_eq!(claims, 1);
}

#[test]
fn a_runtime_can_be_made_again() {
    let addresses = vec![0x1000];
    let mut process: Process<Task<fn()>> = Process::new();
    for _ in 0..3 {
        let terminator = Terminator::new(&mut process, None, &addresses);
        assert_eq!(process.state(), INIT);
        terminate(terminator, &mut process);
        assert_eq!(process.state(), UNINIT);
    }
}
