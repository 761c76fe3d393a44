//! What a thread that waits for a latch has done before each of its steps, and what it does after.

use vstd::prelude::*;

use crate::latch::{
    answers, set_state, spec_completion, spec_wait_next, spec_wait_start, WaitReply, WaitStep,
    LATCH_PANIC, LATCH_READY, LATCH_SLEEP, LATCH_WAIT,
};

verus! {

/// A latch that was set tells what it was set to, and one that was not tells nothing.
pub proof fn set_is_told(ok: bool)
    ensures
        spec_completion(set_state(ok)) == Some(ok),
        set_state(true) == LATCH_READY,
        set_state(false) == LATCH_PANIC,
        spec_completion(LATCH_WAIT) is None,
        spec_completion(LATCH_SLEEP) is None,
{
}

/// The steps of a thread that waits, and what came of each of them.
pub open spec fn is_wait(on_worker: bool, steps: Seq<WaitStep>, replies: Seq<WaitReply>) -> bool {
    &&& steps.len() == replies.len() + 1
    &&& steps[0] == spec_wait_start(on_worker)
    &&& forall|i: int|
        0 <= i < replies.len() ==> answers(steps[i], #[trigger] replies[i]) && steps[i + 1]
            == spec_wait_next(on_worker, steps[i], replies[i])
}

/// A worker goes to sleep only after a search that found no task at all: what comes before the
/// priming of its sleeper is always such a search.
pub proof fn primes_after_a_search_in_vain(
    steps: Seq<WaitStep>,
    replies: Seq<WaitReply>,
    i: int,
)
    requires
        is_wait(true, steps, replies),
        0 <= i < steps.len(),
        steps[i] is Prime,
    ensures
        i > 0,
        steps[i - 1] is Search,
        replies[i - 1] == (WaitReply::Found { yes: false }),
{
    if i > 0 {
        assert(answers(steps[i - 1], replies[i - 1]));
    }
}

/// A thread that is about to sleep has primed its sleeper, then found that no tasks are pending, then
/// found that the latch was not set, and has done nothing else in between.
pub proof fn sleeps_after_looking(
    on_worker: bool,
    steps: Seq<WaitStep>,
    replies: Seq<WaitReply>,
    i: int,
)
    requires
        is_wait(on_worker, steps, replies),
        0 <= i < steps.len(),
        steps[i] is Sleep,
    ensures
        i >= 3,
        steps[i - 3] is Prime,
        steps[i - 2] is CheckPending,
        replies[i - 2] == (WaitReply::Found { yes: false }),
        steps[i - 1] is CheckForSleep,
        replies[i - 1] == (WaitReply::Latch { completion: None }),
{
    if i > 0 {
        assert(answers(steps[i - 1], replies[i - 1]));
        if i > 1 {
            assert(answers(steps[i - 2], replies[i - 2]));
            if i > 2 {
                assert(answers(steps[i - 3], replies[i - 3]));
            }
        }
    }
}

/// A task that was found is run next, and nothing else is ever run.
pub proof fn found_is_run(
    on_worker: bool,
    steps: Seq<WaitStep>,
    replies: Seq<WaitReply>,
    i: int,
)
    requires
        is_wait(on_worker, steps, replies),
        0 <= i < replies.len(),
    ensures
        steps[i + 1] is Run <==> steps[i] is Search && replies[i] == (WaitReply::Found {
            yes: true,
        }),
        !(steps[0] is Run),
{
    assert(answers(steps[i], replies[i]));
}

/// After each task the thread looks at the latch, and after each sleep. If it was not set, a worker
/// goes on with a search for the next task, and any other thread goes back to sleep by way of
/// priming its sleeper again. So it does when pending tasks have kept it awake.
pub proof fn goes_on(on_worker: bool, steps: Seq<WaitStep>, replies: Seq<WaitReply>, i: int)
    requires
        is_wait(on_worker, steps, replies),
        0 <= i < replies.len(),
    ensures
        steps[i] is Run ==> steps[i + 1] is CheckAwake,
        steps[i] is Sleep ==> steps[i + 1] is CheckAwoken,
        steps[i] is CheckAwake && replies[i] == (WaitReply::Latch { completion: None })
            ==> steps[i + 1] is Search,
        steps[i] is CheckAwoken && replies[i] == (WaitReply::Latch { completion: None })
            ==> if on_worker {
            steps[i + 1] is Search
        } else {
            steps[i + 1] is Prime
        },
        steps[i] is CheckPending && replies[i] == (WaitReply::Found { yes: true }) ==> steps[i + 1]
            is Unprime,
        steps[i] is Unprime ==> if on_worker {
            steps[i + 1] is Search
        } else {
            steps[i + 1] is Prime
        },
        steps[0] is Search <==> on_worker,
        steps[0] is Prime <==> !on_worker,
{
    assert(answers(steps[i], replies[i]));
}

/// A thread that has found no task, no pending ones either, and the latch not set, is on its way to
/// sleep without detours.
pub proof fn gets_to_sleep(
    on_worker: bool,
    steps: Seq<WaitStep>,
    replies: Seq<WaitReply>,
    i: int,
)
    requires
        is_wait(on_worker, steps, replies),
        0 <= i < replies.len(),
    ensures
        steps[i] is Search && replies[i] == (WaitReply::Found { yes: false }) ==> steps[i + 1]
            is Prime,
        steps[i] is Prime ==> steps[i + 1] is CheckPending,
        steps[i] is CheckPending && replies[i] == (WaitReply::Found { yes: false })
            ==> steps[i + 1] is CheckForSleep,
        steps[i] is CheckForSleep && replies[i] == (WaitReply::Latch { completion: None })
            ==> steps[i + 1] is Sleep,
{
    assert(answers(steps[i], replies[i]));
}

/// Waiting ends as soon as the latch is seen to be set, with what it was set to, but for a sleeper that
/// has to be unprimed first.
pub proof fn ends_when_set(
    on_worker: bool,
    steps: Seq<WaitStep>,
    replies: Seq<WaitReply>,
    i: int,
    ok: bool,
)
    requires
        is_wait(on_worker, steps, replies),
        0 <= i < replies.len(),
    ensures
        replies[i] == (WaitReply::Latch { completion: Some(ok) }) ==> steps[i + 1] == if steps[i]
            is CheckForSleep {
            WaitStep::UnprimeDone { ok }
        } else {
            WaitStep::Done { ok }
        },
        steps[i] == (WaitStep::UnprimeDone { ok }) ==> steps[i + 1] == (WaitStep::Done { ok }),
{
    assert(answers(steps[i], replies[i]));
}

/// Waiting ends only when the latch was seen to be set: the last look at it said what waiting ends
/// with.
pub proof fn ends_only_when_set(
    on_worker: bool,
    steps: Seq<WaitStep>,
    replies: Seq<WaitReply>,
    i: int,
    ok: bool,
)
    requires
        is_wait(on_worker, steps, replies),
        0 <= i < steps.len(),
        steps[i] == (WaitStep::Done { ok }),
    ensures
        i > 0,
        steps[i - 1] is CheckAwake || steps[i - 1] is CheckAwoken ==> replies[i - 1]
            == (WaitReply::Latch { completion: Some(ok) }),
        !(steps[i - 1] is CheckAwake || steps[i - 1] is CheckAwoken) ==> i > 1 && steps[i - 2]
            is CheckForSleep && replies[i - 2] == (WaitReply::Latch { completion: Some(ok) }),
{
    if i > 0 {
        assert(answers(steps[i - 1], replies[i - 1]));
        if i > 1 {
            assert(answers(steps[i - 2], replies[i - 2]));
        }
    }
}

/// Whatever a step asks, each reply that it can get is one to it, and there is no other.
pub proof fn replies_are_answers(step: WaitStep, yes: bool, completion: Option<bool>)
    ensures
        answers(step, WaitReply::Found { yes }) <==> step is Search || step is CheckPending,
        answers(step, WaitReply::Latch { completion }) <==> step is CheckAwake || step
            is CheckForSleep || step is CheckAwoken,
        answers(step, WaitReply::Did) <==> step is Run || step is Prime || step is Unprime || step
            is UnprimeDone || step is Sleep,
{
}

} // verus!
