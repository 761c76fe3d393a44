//! What a thread that needs the runtime, or terminates it, has done before each of its steps, and what
//! it does after.

use vstd::prelude::*;

use crate::lifecycle::{
    spec_init_next, spec_terminate_next, InitStep, TerminateStep, INIT, INITING,
};

verus! {

/// The steps of a thread that needs the runtime, whether its claim worked, and what state it saw.
pub open spec fn is_init(steps: Seq<InitStep>, claims: Seq<bool>, states: Seq<u8>) -> bool {
    &&& steps.len() == claims.len() + 1
    &&& states.len() == claims.len()
    &&& steps[0] is Claim
    &&& forall|i: int|
        0 <= i < claims.len() ==> steps[i + 1] == #[trigger] spec_init_next(
            steps[i],
            claims[i],
            states[i],
        )
}

/// Whoever's claim works makes the runtime, publishes it, announces it, and uses it. Nobody else makes
/// one.
pub proof fn who_claims_makes(
    steps: Seq<InitStep>,
    claims: Seq<bool>,
    states: Seq<u8>,
    i: int,
)
    requires
        is_init(steps, claims, states),
        0 <= i < claims.len(),
    ensures
        steps[i + 1] is Make <==> steps[i] is Claim && claims[i],
        steps[i + 1] is Publish <==> steps[i] is Make,
        steps[i + 1] is Announce <==> steps[i] is Publish,
        steps[i] is Announce ==> steps[i + 1] is Ready,
        steps[0] is Claim,
        !(steps[i + 1] is Claim),
{
    assert(steps[i + 1] == spec_init_next(steps[i], claims[i], states[i]));
}

/// Whoever's claim does not work looks at the state until nobody is about to change it, and takes a nap
/// before each further look. It uses the runtime if and only if there is one then.
pub proof fn who_does_not_claim_waits(
    steps: Seq<InitStep>,
    claims: Seq<bool>,
    states: Seq<u8>,
    i: int,
)
    requires
        is_init(steps, claims, states),
        0 <= i < claims.len(),
    ensures
        steps[i] is Claim && !claims[i] ==> steps[i + 1] is Poll,
        steps[i] is Poll && states[i] == INITING ==> steps[i + 1] is Nap,
        steps[i] is Nap ==> steps[i + 1] is Poll,
        steps[i] is Poll && states[i] == INIT ==> steps[i + 1] is Ready,
        steps[i] is Poll && states[i] != INITING && states[i] != INIT ==> steps[i + 1] is Failed,
        steps[i + 1] is Ready ==> steps[i] is Ready || steps[i] is Announce || steps[i] is Poll
            && states[i] == INIT,
        steps[i + 1] is Failed ==> steps[i] is Failed || steps[i] is Poll && states[i] != INITING
            && states[i] != INIT,
        steps[i] is Ready ==> steps[i + 1] is Ready,
        steps[i] is Failed ==> steps[i + 1] is Failed,
{
    assert(steps[i + 1] == spec_init_next(steps[i], claims[i], states[i]));
}

/// The steps of a thread that terminates a runtime, and how many workers it found left.
pub open spec fn is_termination(
    steps: Seq<TerminateStep>,
    running: Seq<u32>,
    num_workers: usize,
) -> bool {
    &&& steps.len() == running.len() + 1
    &&& steps[0] is Prime
    &&& forall|i: int|
        0 <= i < running.len() ==> steps[i + 1] == #[trigger] spec_terminate_next(
            steps[i],
            num_workers,
            running[i],
        )
}

/// A termination first primes the sleeper, then tells everybody, then wakes all workers, one after the
/// other, and then sleeps.
pub proof fn wakes_everybody(
    steps: Seq<TerminateStep>,
    running: Seq<u32>,
    num_workers: usize,
    i: int,
)
    requires
        is_termination(steps, running, num_workers),
        0 <= i < steps.len(),
        i <= num_workers + 2,
    ensures
        steps[i] == if i == 0 {
            TerminateStep::Prime
        } else if i == 1 {
            TerminateStep::Signal
        } else if i < num_workers + 2 {
            TerminateStep::Wake { worker: (i - 2) as usize }
        } else {
            TerminateStep::Sleep
        },
    decreases i,
{
    if i > 0 {
        wakes_everybody(steps, running, num_workers, i - 1);
        assert(steps[i - 1 + 1] == spec_terminate_next(
            steps[i - 1],
            num_workers,
            running[i - 1],
        ));
    }
}

/// After the sleep, a termination goes on only if no workers are left. Then it closes the runtime, takes
/// it away, and announces that, in this order, and is done.
pub proof fn ends_without_workers(
    steps: Seq<TerminateStep>,
    running: Seq<u32>,
    num_workers: usize,
    i: int,
)
    requires
        is_termination(steps, running, num_workers),
        0 <= i < running.len(),
    ensures
        steps[i] is Sleep ==> steps[i + 1] is CheckRunning,
        steps[i + 1] is CheckRunning ==> steps[i] is Sleep,
        steps[i + 1] is Close <==> steps[i] is CheckRunning && running[i] == 0,
        steps[i] is CheckRunning && running[i] != 0 ==> steps[i + 1] is Failed,
        steps[i + 1] is Failed ==> steps[i] is Failed || steps[i] is CheckRunning && running[i]
            != 0,
        steps[i + 1] is Take <==> steps[i] is Close,
        steps[i + 1] is Announce <==> steps[i] is Take,
        steps[i] is Announce ==> steps[i + 1] is Done,
        steps[i + 1] is Done ==> steps[i] is Done || steps[i] is Announce,
        steps[i] is Done ==> steps[i + 1] is Done,
        steps[i] is Failed ==> steps[i + 1] is Failed,
{
    assert(steps[i + 1] == spec_terminate_next(steps[i], num_workers, running[i]));
}

} // verus!
