//! The decisions of the self-test harness: which test procedure runs next
//! and with which code the run ends. Running a procedure, logging and
//! signalling the exit code are left to the caller.
use vstd::prelude::*;

verus! {

/// The outcome of a run, as signalled on the exit port.
#[derive(Debug, Clone, Copy, PartialEq, Eq, Structural)]
pub enum QemuExitCode {
    Success,
    Failed,
}

/// The port that takes the exit code.
pub const EXIT_PORT: u16 = 0xf4;

impl QemuExitCode {
    pub open spec fn spec_code(self) -> u32 {
        match self {
            QemuExitCode::Success => 0x10,
            QemuExitCode::Failed => 0x11,
        }
    }

    /// The number written to the exit port.
    pub fn code(self) -> (r: u32)
        ensures
            r == self.spec_code(),
    {
        match self {
            QemuExitCode::Success => 0x10,
            QemuExitCode::Failed => 0x11,
        }
    }
}

/// A test procedure that the harness can run.
pub trait Testable {
    fn run(&self);
}

/// How a test procedure ended.
#[derive(Debug, Clone, Copy, PartialEq, Eq, Structural)]
pub enum Outcome {
    Returned,
    Panicked,
}

/// Where a run of `total` test procedures stands.
#[derive(Debug, Clone, Copy, PartialEq, Eq, Structural)]
pub enum HarnessState {
    Running { next: usize, total: usize },
    Terminated { code: QemuExitCode },
}

/// What the caller does next.
#[derive(Debug, Clone, Copy, PartialEq, Eq, Structural)]
pub enum Action {
    /// Log the name of procedure `index`, then run it.
    Run { index: usize },
    /// Signal `code` on the exit port and stop.
    Exit { code: QemuExitCode },
}

impl HarnessState {
    /// A procedure is under way.
    pub open spec fn running(self) -> bool {
        match self {
            HarnessState::Running { next, total } => next < total,
            HarnessState::Terminated { .. } => false,
        }
    }

    /// Whether a procedure is under way, so that `step` may be called.
    pub fn is_running(&self) -> (r: bool)
        ensures
            r == self.running(),
    {
        match self {
            HarnessState::Running { next, total } => *next < *total,
            HarnessState::Terminated { .. } => false,
        }
    }
}

/// State and action at the start of a run of `total` procedures.
pub open spec fn start(total: usize) -> (HarnessState, Action) {
    if total == 0 {
        (
            HarnessState::Terminated { code: QemuExitCode::Success },
            Action::Exit { code: QemuExitCode::Success },
        )
    } else {
        (HarnessState::Running { next: 0, total }, Action::Run { index: 0 })
    }
}

/// State and action once the running procedure has ended with `outcome`.
pub open spec fn after(state: HarnessState, outcome: Outcome) -> (HarnessState, Action) {
    match state {
        HarnessState::Running { next, total } => match outcome {
            Outcome::Panicked => (
                HarnessState::Terminated { code: QemuExitCode::Failed },
                Action::Exit { code: QemuExitCode::Failed },
            ),
            Outcome::Returned => if next + 1 >= total {
                (
                    HarnessState::Terminated { code: QemuExitCode::Success },
                    Action::Exit { code: QemuExitCode::Success },
                )
            } else {
                (
                    HarnessState::Running { next: (next + 1) as usize, total },
                    Action::Run { index: (next + 1) as usize },
                )
            },
        },
        HarnessState::Terminated { .. } => (state, Action::Exit { code: state->code }),
    }
}

/// Starts a run of `total` test procedures: the first one runs, or, with
/// none, the run ends at once with success.
pub fn test_runner(total: usize) -> (r: (HarnessState, Action))
    ensures
        r == start(total),
{
    if total == 0 {
        (
            HarnessState::Terminated { code: QemuExitCode::Success },
            Action::Exit { code: QemuExitCode::Success },
        )
    } else {
        (HarnessState::Running { next: 0, total }, Action::Run { index: 0 })
    }
}

/// Advances a run once the running procedure has ended: a panic ends the
/// run with failure; a normal return runs the next procedure, or ends the
/// run with success after the last one.
pub fn step(state: HarnessState, outcome: Outcome) -> (r: (HarnessState, Action))
    requires
        state.running(),
    ensures
        r == after(state, outcome),
{
    match state {
        HarnessState::Running { next, total } => match outcome {
            Outcome::Panicked => (
                HarnessState::Terminated { code: QemuExitCode::Failed },
                Action::Exit { code: QemuExitCode::Failed },
            ),
            Outcome::Returned => if next + 1 >= total {
                (
                    HarnessState::Terminated { code: QemuExitCode::Success },
                    Action::Exit { code: QemuExitCode::Success },
                )
            } else {
                (HarnessState::Running { next: next + 1, total }, Action::Run { index: next + 1 })
            },
        },
        HarnessState::Terminated { code } => (state, Action::Exit { code }),
    }
}

/// A procedure that checks that one equals one.
pub fn trivial_assertion() {
    let one: u32 = 1;
    assert(one == 1);
}

/// With no procedures the run ends at once with the success code, and no
/// procedure is started.
pub proof fn lemma_empty_run_succeeds()
    ensures
        start(0) == (
            HarnessState::Terminated { code: QemuExitCode::Success },
            Action::Exit { code: QemuExitCode::Success },
        ),
{
}

/// When a procedure panics, the run ends with the failure code right after
/// it, and the state reached runs nothing more, so no later procedure is
/// ever started. In particular, of two or more procedures, the first is
/// started and a panic in it is followed by the exit.
pub proof fn lemma_panic_ends_run(state: HarnessState, total: usize)
    requires
        state.running(),
        total >= 1,
    ensures
        after(state, Outcome::Panicked) == (
            HarnessState::Terminated { code: QemuExitCode::Failed },
            Action::Exit { code: QemuExitCode::Failed },
        ),
        !after(state, Outcome::Panicked).0.running(),
        start(total).1 == (Action::Run { index: 0 }),
        start(total).0.running(),
        after(start(total).0, Outcome::Panicked).1 == (Action::Exit {
            code: QemuExitCode::Failed,
        }),
{
}

} // verus!
