use crate::cpu::{batch, failure_of, step_batch, CYCLES_PER_FRAME};
use crate::error::Chip8Error;
use crate::state::State;
use vstd::prelude::*;

verus! {

/// What the user asked for since the last frame.
#[derive(Clone, Copy, Debug, PartialEq, Eq, Structural)]
pub enum UiAction {
    /// Nothing.
    Idle,
    /// Let the program run.
    Run,
    /// Halt the program.
    Stop,
    /// Halt the program behind its next instruction.
    Step,
}

/// Whether the machine is running, and whether a single instruction is
/// owed.
#[derive(Clone, Copy, Debug, PartialEq, Eq, Structural)]
pub struct RunControl {
    /// The program runs: each frame makes a full batch of cycles.
    pub running: bool,
    /// One instruction is owed to the user.
    pub step: bool,
}

/// The control after the user's action.
pub open spec fn after_action(control: RunControl, action: UiAction) -> RunControl {
    match action {
        UiAction::Idle => control,
        UiAction::Run => RunControl { running: true, ..control },
        UiAction::Stop => RunControl { running: false, ..control },
        UiAction::Step => RunControl { running: false, step: true },
    }
}

/// The number of cycles that the next frame makes.
pub open spec fn cycles_due(control: RunControl) -> nat {
    if control.running {
        CYCLES_PER_FRAME as nat
    } else if control.step {
        1
    } else {
        0
    }
}

/// The control behind a frame whose batch ended with `result`: the owed
/// instruction is paid, and a failure halts the program.
pub open spec fn after_frame(control: RunControl, result: Result<(), Chip8Error>) -> RunControl {
    RunControl { running: control.running && result is Ok, step: false }
}

impl RunControl {
    /// A halted machine with nothing owed.
    pub fn new() -> (control: RunControl)
        ensures
            control == (RunControl { running: false, step: false }),
    {
        RunControl { running: false, step: false }
    }

    /// Takes note of what the user asked for.
    pub fn apply(&mut self, action: UiAction)
        ensures
            *final(self) == after_action(*old(self), action),
    {
        match action {
            UiAction::Idle => {},
            UiAction::Run => {
                self.running = true;
            },
            UiAction::Stop => {
                self.running = false;
            },
            UiAction::Step => {
                self.running = false;
                self.step = true;
            },
        }
    }

    /// The number of cycles that the next frame makes: a full batch while
    /// running, one where an instruction is owed, else none.
    pub fn cycles_due(&self) -> (n: usize)
        ensures
            n == cycles_due(*self),
    {
        if self.running {
            CYCLES_PER_FRAME
        } else if self.step {
            1
        } else {
            0
        }
    }

    /// Makes the cycles of one frame on `state`. A cycle that fails halts
    /// the program; its error is returned.
    pub fn run_frame(&mut self, state: &mut State) -> (result: Result<(), Chip8Error>)
        ensures
            *final(self) == after_frame(*old(self), result),
            exists|randoms: Seq<u8>|
                randoms.len() == cycles_due(*old(self)) && #[trigger] batch(old(state)@, randoms)
                    == (final(state)@, failure_of(result)),
    {
        let n = self.cycles_due();
        let result = step_batch(state, n);
        self.step = false;
        if result.is_err() {
            self.running = false;
        }
        result
    }
}

} // verus!
