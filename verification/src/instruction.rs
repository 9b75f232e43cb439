use crate::engine::carried_out;
use crate::error::Chip8Error;
use crate::mnemonic::{hex4, mnemonic, opcode_text};
use crate::operation::{decode, operation_of, Operation};
use crate::random::random_byte;
use crate::semantics::{step, Outcome};
use crate::state::State;
use vstd::prelude::*;

verus! {

/// An opcode together with the way it is written in a listing.
#[derive(Debug)]
pub struct Instruction {
    /// The sixteen bits as they lie in memory, high byte first.
    pub opcode: u16,
    /// The name and operands of the instruction.
    pub code: String,
}

/// What a caller who only hears "go on" or "stop" learns of an outcome:
/// `proceed` with the machine it names, or not with the machine as it was.
pub open spec fn reported(before: State, after: State, proceed: bool, outcome: Outcome) -> bool {
    match outcome {
        Ok(m) => proceed && after@ == m,
        Err(_) => !proceed && after == before,
    }
}

impl Instruction {
    /// `code` is the listing of `opcode`.
    pub open spec fn well_formed(&self) -> bool {
        self.code@ == mnemonic(operation_of(self.opcode))
    }

    /// Decodes `opcode`. Every opcode has an instruction: those that the
    /// machine does not know decode to one that fails when run.
    pub fn new(opcode: u16) -> (instruction: Instruction)
        ensures
            instruction.opcode == opcode,
            instruction.well_formed(),
    {
        Instruction { opcode, code: decode(opcode).mnemonic() }
    }

    /// Decodes each opcode of `data`, in order.
    pub fn parse_chunk(data: Vec<u16>) -> (program: Vec<Instruction>)
        ensures
            program.len() == data.len(),
            forall|k: int|
                0 <= k < data.len() ==> (#[trigger] program[k]).opcode == data[k]
                    && program[k].well_formed(),
    {
        let mut program: Vec<Instruction> = Vec::with_capacity(data.len());
        let mut k: usize = 0;
        while k < data.len()
            invariant
                k <= data.len(),
                program.len() == k,
                forall|j: int|
                    0 <= j < k ==> (#[trigger] program[j]).opcode == data[j]
                        && program[j].well_formed(),
            decreases data.len() - k,
        {
            program.push(Instruction::new(data[k]));
            k = k + 1;
        }
        program
    }

    /// The instruction with its operands taken apart.
    pub fn operation(&self) -> (op: Operation)
        ensures
            op == operation_of(self.opcode),
            op.valid(),
    {
        decode(self.opcode)
    }

    /// The opcode as four hexadecimal digits.
    pub fn to_string(&self) -> (text: String)
        ensures
            text@ == hex4(self.opcode as int),
    {
        opcode_text(self.opcode)
    }

    /// Carries the instruction out on `state`, and says why where it could
    /// not; the machine is then as it was. `Rnd` masks a byte drawn by
    /// chance; every other instruction does the one thing `step` says.
    pub fn execute(&self, state: &mut State) -> (result: Result<(), Chip8Error>)
        ensures
            exists|random: u8|
                carried_out(
                    *old(state),
                    *final(state),
                    result,
                    #[trigger] step(old(state)@, operation_of(self.opcode), random),
                ),
            !(operation_of(self.opcode) is Rnd) ==> carried_out(
                *old(state),
                *final(state),
                result,
                step(old(state)@, operation_of(self.opcode), 0),
            ),
    {
        let op = decode(self.opcode);
        let random = match op {
            Operation::Rnd { .. } => random_byte(),
            _ => 0,
        };
        op.execute(state, random)
    }

    /// Carries the instruction out on `state`. `true` says that execution
    /// may go on; `false` that the instruction could not be carried out, and
    /// the machine is then as it was.
    pub fn function(&self, state: &mut State) -> (proceed: bool)
        ensures
            exists|random: u8|
                reported(
                    *old(state),
                    *final(state),
                    proceed,
                    #[trigger] step(old(state)@, operation_of(self.opcode), random),
                ),
            !(operation_of(self.opcode) is Rnd) ==> reported(
                *old(state),
                *final(state),
                proceed,
                step(old(state)@, operation_of(self.opcode), 0),
            ),
    {
        let result = self.execute(state);
        proof {
            let random = choose|random: u8|
                carried_out(
                    *old(state),
                    *state,
                    result,
                    #[trigger] step(old(state)@, operation_of(self.opcode), random),
                );
            assert(reported(
                *old(state),
                *state,
                result is Ok,
                step(old(state)@, operation_of(self.opcode), random),
            ));
        }
        result.is_ok()
    }
}

} // verus!
