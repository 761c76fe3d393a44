use forkyou::latch::{
    completion_awake, completion_awoken, Latch, WaitReply, WaitStep, LATCH_PANIC, LATCH_READY,
    LATCH_SLEEP, LATCH_WAIT,
};
use forkyou::sleeper::Sleeper;
use forkyou::stack_task::StackTask;

#[test]
fn a_latch_is_seen_once_it_is_set() {
    for ok in [true, false] {
        let mut latch = Latch::new_on_worker(3);
        assert_eq!(latch.check_completion_awake(), None);
        assert!(!latch.set(ok));
        assert_eq!(latch.check_completion_awake(), Some(ok));
        assert_eq!(latch.wait(true), WaitStep::Done { ok });
        assert_eq!(latch.wait(false), WaitStep::Done { ok });
    }
    assert_eq!(completion_awake(LATCH_WAIT), None);
    assert_eq!(completion_awake(LATCH_READY), Some(true));
    assert_eq!(completion_awake(LATCH_PANIC), Some(false));
    assert_eq!(completion_awoken(LATCH_SLEEP), None);
    assert_eq!(completion_awoken(LATCH_READY), Some(true));
    assert_eq!(completion_awoken(LATCH_PANIC), Some(false));
}

#[test]
fn a_sleeping_thread_has_to_be_woken() {
    let mut latch = Latch::with_sleeper(None);
    assert_eq!(latch.check_completion_for_sleep(), None);
    assert!(latch.set(true));
    assert_eq!(latch.check_completion_awoken(), Some(true));

    // woken for another reason.
    let mut latch = Latch::with_sleeper(None);
    assert_eq!(latch.check_completion_for_sleep(), None);
    assert_eq!(latch.check_completion_awoken(), None);
    assert!(!latch.set(false));
    assert_eq!(latch.check_completion_for_sleep(), Some(false));
}

#[test]
fn a_task_is_stolen_by_others() {
    assert!(!Latch::new_on_worker(3).stolen_by(3));
    assert!(Latch::new_on_worker(3).stolen_by(4));
    assert!(Latch::with_sleeper(None).stolen_by(3));
}

#[test]
fn a_wake_after_the_priming_keeps_a_thread_awake() {
    let mut sleeper = Sleeper::new();
    assert!(!sleeper.wake());
    sleeper.prime();
    assert!(sleeper.sleep());
    assert!(sleeper.wake());
    assert!(!sleeper.sleep());
    assert!(!sleeper.wake());
    sleeper.prime();
    sleeper.unprime();
    assert!(!sleeper.sleep());
}

/// A thread that waits for a latch, and one that sets it after `before` steps of the other one.
/// Whether the thread has slept, and what it has learnt.
fn wait_and_set(on_worker: bool, before: u32, ok: bool) -> (bool, bool) {
    let mut latch = Latch::with_sleeper(None);
    let mut sleeper = Sleeper::new();
    let mut step = latch.wait(on_worker);
    let mut tasks = 2;
    let mut slept = false;
    let mut set = false;
    for turn in 0..100 {
        if turn >= before && !set {
            set = true;
            if latch.set(ok) {
                sleeper.wake();
            }
        }
        let reply = match step {
            WaitStep::Search => {
                let yes = tasks > 0;
                WaitReply::Found { yes }
            }
            WaitStep::Run => {
                tasks -= 1;
                WaitReply::Did
            }
            WaitStep::CheckAwake => WaitReply::Latch { completion: latch.check_completion_awake() },
            WaitStep::Prime => {
                sleeper.prime();
                WaitReply::Did
            }
            WaitStep::CheckPending => WaitReply::Found { yes: false },
            WaitStep::Unprime | WaitStep::UnprimeDone { .. } => {
                sleeper.unprime();
                WaitReply::Did
            }
            WaitStep::CheckForSleep => {
                WaitReply::Latch { completion: latch.check_completion_for_sleep() }
            }
            WaitStep::Sleep => {
                if sleeper.sleep() {
                    // asleep: it is the other one's turn.
                    slept = true;
                    continue;
                }
                WaitReply::Did
            }
            WaitStep::CheckAwoken => {
                WaitReply::Latch { completion: latch.check_completion_awoken() }
            }
            WaitStep::Done { ok } => return (slept, ok),
        };
        step = Latch::wait_slow_path(on_worker, step, reply);
    }
    panic!("left asleep");
}

#[test]
fn nobody_is_left_asleep() {
    let mut slept = 0;
    for before in 0..20 {
        for ok in [true, false] {
            let (a, learnt) = wait_and_set(true, before, ok);
            assert_eq!(learnt, ok);
            let (b, learnt) = wait_and_set(false, before, ok);
            assert_eq!(learnt, ok);
            slept += a as u32 + b as u32;
        }
    }
    assert!(slept > 0);
}

#[test]
fn pending_tasks_keep_a_thread_awake() {
    let step = Latch::wait_slow_path(true, WaitStep::CheckPending, WaitReply::Found { yes: true });
    assert_eq!(step, WaitStep::Unprime);
    assert_eq!(Latch::wait_slow_path(true, step, WaitReply::Did), WaitStep::Search);
    assert_eq!(Latch::wait_slow_path(false, step, WaitReply::Did), WaitStep::Prime);
}

#[test]
fn stack_tasks_run_once() {
    let mut task = StackTask::new_on_worker(1, |worker: &u32, stolen: bool, add: u32| {
        (*worker + add, stolen)
    });
    assert!(!task.run(&10, 1, 5));
    assert_eq!(task.handle().join(), Some((15, false)));

    let mut task = StackTask::with_sleeper(None, |_: &u32, stolen: bool, _: ()| stolen);
    assert!(!task.run(&0, 1, ()));
    assert_eq!(task.handle().join(), Some(true));
}
