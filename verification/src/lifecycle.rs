//! How the runtime comes to be, once, and how it ends.

pub mod claims;
pub mod order;

use vstd::prelude::*;

use crate::runtime::{fresh, Pool, Runtime};

verus! {

/// There is no runtime.
pub const UNINIT: u8 = 0;

/// Somebody is about to make the runtime, or to take it away.
pub const INITING: u8 = 1;

/// There is a runtime.
pub const INIT: u8 = 2;

/// What a thread that needs the runtime does next.
#[derive(Clone, Copy, Debug, PartialEq, Eq, Structural)]
pub enum InitStep {
    /// Change the state from [`UNINIT`] to [`INITING`]. The reply is whether that worked.
    Claim,
    /// Make the runtime.
    Make,
    /// Publish the runtime.
    Publish,
    /// Change the state to [`INIT`].
    Announce,
    /// Load the state. The reply is what it was.
    Poll,
    /// Sleep a little.
    Nap,
    /// Use the runtime.
    Ready,
    /// The runtime was taken away again before it could be used.
    Failed,
}

/// The step after this one, given whether the claim worked and what the state was.
pub open spec fn spec_init_next(step: InitStep, claimed: bool, state: u8) -> InitStep {
    match step {
        InitStep::Claim => if claimed {
            InitStep::Make
        } else {
            InitStep::Poll
        },
        InitStep::Make => InitStep::Publish,
        InitStep::Publish => InitStep::Announce,
        InitStep::Announce => InitStep::Ready,
        InitStep::Poll => if state == INITING {
            InitStep::Nap
        } else if state == INIT {
            InitStep::Ready
        } else {
            InitStep::Failed
        },
        InitStep::Nap => InitStep::Poll,
        InitStep::Ready => InitStep::Ready,
        InitStep::Failed => InitStep::Failed,
    }
}

/// The slow path of getting at the runtime, one step at a time. Only a claim has `claimed`
/// for its reply, and only a poll has `state`.
pub fn init_step(step: InitStep, claimed: bool, state: u8) -> (after: InitStep)
    ensures
        after == spec_init_next(step, claimed, state),
{
    match step {
        InitStep::Claim => if claimed {
            InitStep::Make
        } else {
            InitStep::Poll
        },
        InitStep::Make => InitStep::Publish,
        InitStep::Publish => InitStep::Announce,
        InitStep::Announce => InitStep::Ready,
        InitStep::Poll => if state == INITING {
            InitStep::Nap
        } else if state == INIT {
            InitStep::Ready
        } else {
            InitStep::Failed
        },
        InitStep::Nap => InitStep::Poll,
        InitStep::Ready => InitStep::Ready,
        InitStep::Failed => InitStep::Failed,
    }
}

/// What a thread that terminates the runtime does next.
#[derive(Clone, Copy, Debug, PartialEq, Eq, Structural)]
pub enum TerminateStep {
    /// Prime the termination sleeper.
    Prime,
    /// Tell everybody that the runtime terminates.
    Signal,
    /// Wake this worker.
    Wake { worker: usize },
    /// Sleep, unless woken since the priming.
    Sleep,
    /// Load the number of workers that have not left. The reply is that number.
    CheckRunning,
    /// Change the state to [`INITING`].
    Close,
    /// Take the runtime away.
    Take,
    /// Change the state to [`UNINIT`].
    Announce,
    Done,
    /// There are workers left.
    Failed,
}

/// The step after this one, given how many workers there are and how many are left.
pub open spec fn spec_terminate_next(
    step: TerminateStep,
    num_workers: usize,
    running: u32,
) -> TerminateStep {
    match step {
        TerminateStep::Prime => TerminateStep::Signal,
        TerminateStep::Signal => if num_workers > 0 {
            TerminateStep::Wake { worker: 0 }
        } else {
            TerminateStep::Sleep
        },
        TerminateStep::Wake { worker } => if worker + 1 < num_workers {
            TerminateStep::Wake { worker: (worker + 1) as usize }
        } else {
            TerminateStep::Sleep
        },
        TerminateStep::Sleep => TerminateStep::CheckRunning,
        TerminateStep::CheckRunning => if running == 0 {
            TerminateStep::Close
        } else {
            TerminateStep::Failed
        },
        TerminateStep::Close => TerminateStep::Take,
        TerminateStep::Take => TerminateStep::Announce,
        TerminateStep::Announce => TerminateStep::Done,
        TerminateStep::Done => TerminateStep::Done,
        TerminateStep::Failed => TerminateStep::Failed,
    }
}

/// The termination of a runtime, one step at a time.
pub fn terminate_step(step: TerminateStep, num_workers: usize, running: u32) -> (after:
    TerminateStep)
    ensures
        after == spec_terminate_next(step, num_workers, running),
{
    match step {
        TerminateStep::Prime => TerminateStep::Signal,
        TerminateStep::Signal => if num_workers > 0 {
            TerminateStep::Wake { worker: 0 }
        } else {
            TerminateStep::Sleep
        },
        TerminateStep::Wake { worker } => if num_workers > 0 && worker < num_workers - 1 {
            TerminateStep::Wake { worker: worker + 1 }
        } else {
            TerminateStep::Sleep
        },
        TerminateStep::Sleep => TerminateStep::CheckRunning,
        TerminateStep::CheckRunning => if running == 0 {
            TerminateStep::Close
        } else {
            TerminateStep::Failed
        },
        TerminateStep::Close => TerminateStep::Take,
        TerminateStep::Take => TerminateStep::Announce,
        TerminateStep::Announce => TerminateStep::Done,
        TerminateStep::Done => TerminateStep::Done,
        TerminateStep::Failed => TerminateStep::Failed,
    }
}

/// The runtime of a process, if there is one.
pub struct Process<T: Send> {
    state: u8,
    runtime: Option<Runtime<T>>,
}

impl<T: Send> Process<T> {
    /// The pool, if there is a runtime.
    pub closed spec fn view(&self) -> Option<Pool<T>> {
        match self.runtime {
            Some(runtime) => Some(runtime@),
            None => None,
        }
    }

    /// The state says whether there is a runtime.
    pub closed spec fn wf(&self) -> bool {
        match self.runtime {
            Some(runtime) => self.state == INIT && runtime.wf(),
            None => self.state == UNINIT,
        }
    }

    /// A process without a runtime.
    pub fn new() -> (process: Self)
        ensures
            process.wf(),
            process@ is None,
    {
        Process { state: UNINIT, runtime: None }
    }

    /// The state.
    pub fn state(&self) -> (state: u8)
        requires
            self.wf(),
        ensures
            state == if self@ is Some {
                INIT
            } else {
                UNINIT
            },
    {
        self.state
    }

    /// The runtime. If there is none, one is made, with a worker for each address.
    pub fn get_or_init(&mut self, addresses: &Vec<usize>) -> (runtime: &mut Runtime<T>)
        requires
            old(self).wf(),
            addresses@.len() <= u32::MAX,
        ensures
            runtime.wf(),
            runtime@ == match old(self)@ {
                Some(pool) => pool,
                None => fresh(addresses@),
            },
            final(runtime).wf() ==> final(self).wf(),
            final(self)@ == Some(final(runtime)@),
    {
        if self.runtime.is_none() {
            self.runtime = Some(Runtime::init(addresses));
            self.state = INIT;
        }
        self.runtime.as_mut().unwrap()
    }

    /// The runtime, which has to be there.
    pub fn expect(&mut self) -> (runtime: &mut Runtime<T>)
        requires
            old(self).wf(),
            old(self)@ is Some,
        ensures
            runtime.wf(),
            Some(runtime@) == old(self)@,
            final(runtime).wf() ==> final(self).wf(),
            final(self)@ == Some(final(runtime)@),
    {
        self.runtime.as_mut().unwrap()
    }
}

/// Whoever holds this terminates the runtime in the end. There is no other.
pub struct Terminator {
    private: (),
}

impl Terminator {
    /// Becomes the one to terminate the runtime, which is made if there is none. This is not
    /// for workers, and only for one at a time.
    pub fn new<T: Send>(
        process: &mut Process<T>,
        current: Option<usize>,
        addresses: &Vec<usize>,
    ) -> (terminator: Self)
        requires
            old(process).wf(),
            current is None,
            old(process)@ matches Some(pool) ==> !pool.has_terminator,
            addresses@.len() <= u32::MAX,
        ensures
            final(process).wf(),
            final(process)@ == Some(
                Pool {
                    has_terminator: true,
                    ..match old(process)@ {
                        Some(pool) => pool,
                        None => fresh(addresses@),
                    }
                },
            ),
    {
        let runtime = process.get_or_init(addresses);
        runtime.claim_terminator();
        Terminator { private: () }
    }

    /// Starts the termination. It ends when the last worker has left.
    pub fn signal<T: Send>(&self, process: &mut Process<T>)
        requires
            old(process).wf(),
            old(process)@ is Some,
        ensures
            final(process).wf(),
            final(process)@ == Some(
                Pool {
                    primed: Seq::new(old(process)@->Some_0.num_workers(), |i: int| false),
                    terminating: true,
                    termination_primed: true,
                    ..old(process)@->Some_0
                },
            ),
    {
        let runtime = process.expect();
        runtime.begin_termination();
    }

    /// Ends the termination, and takes the runtime away. All workers must have left.
    pub fn finish<T: Send>(self, process: &mut Process<T>) -> (runtime: Runtime<T>)
        requires
            old(process).wf(),
            old(process)@ matches Some(pool) && pool.running == 0,
        ensures
            final(process).wf(),
            final(process)@ is None,
            runtime.wf(),
            Some(runtime@) == old(process)@,
    {
        process.state = INITING;
        let runtime: Option<Runtime<T>> = process.runtime.take();
        process.state = UNINIT;
        runtime.unwrap()
    }
}

} // verus!
