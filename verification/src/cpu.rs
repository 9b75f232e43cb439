use crate::engine::carried_out;
use crate::error::Chip8Error;
use crate::instruction::reported;
use crate::operation::{decode, operation_of, Operation};
use crate::random::random_byte;
use crate::semantics::{step, Outcome};
use crate::state::{Machine, State};
use vstd::prelude::*;

verus! {

/// Instructions carried out for each frame drawn.
pub const CYCLES_PER_FRAME: usize = 9;

/// The opcode at the program counter: two bytes, the high one first. There
/// is none where the second byte would lie beyond memory.
pub open spec fn opcode_at(m: Machine) -> Result<u16, Chip8Error> {
    if m.pc + 1 >= 4096 {
        Err(Chip8Error::AddressOutOfRange)
    } else {
        Ok((m.ram[m.pc as int] * 256 + m.ram[m.pc + 1]) as u16)
    }
}

/// One cycle: the instruction at the program counter is fetched, decoded and
/// carried out. `random` is the byte that `Rnd` masks.
pub open spec fn cycle(m: Machine, random: u8) -> Outcome {
    match opcode_at(m) {
        Ok(opcode) => step(m, operation_of(opcode), random),
        Err(e) => Err(e),
    }
}

/// The machine with both timers one lower, unless they are at zero.
pub open spec fn ticked(m: Machine) -> Machine {
    Machine {
        dt: if m.dt > 0 {
            (m.dt - 1) as u8
        } else {
            0
        },
        st: if m.st > 0 {
            (m.st - 1) as u8
        } else {
            0
        },
        ..m
    }
}

/// The machine after one cycle for each byte of `randoms`, and the error of
/// the cycle that failed. After a failure no further cycle is made.
pub open spec fn cycles(m: Machine, randoms: Seq<u8>) -> (Machine, Option<Chip8Error>)
    decreases randoms.len(),
{
    if randoms.len() == 0 {
        (m, None)
    } else {
        let (before, failure) = cycles(m, randoms.drop_last());
        if failure is Some {
            (before, failure)
        } else {
            match cycle(before, randoms.last()) {
                Ok(after) => (after, None),
                Err(e) => (before, Some(e)),
            }
        }
    }
}

/// The machine after a batch of cycles, one for each byte of `randoms`, and
/// the error of the cycle that failed. The timers tick once, behind the
/// first cycle, whether it failed or not. After a failure no further cycle
/// is made.
pub open spec fn batch(m: Machine, randoms: Seq<u8>) -> (Machine, Option<Chip8Error>) {
    if randoms.len() == 0 {
        (m, None)
    } else {
        match cycle(m, randoms[0]) {
            Ok(after) => cycles(ticked(after), randoms.drop_first()),
            Err(e) => (ticked(m), Some(e)),
        }
    }
}

/// The error of a result, if it is one.
pub open spec fn failure_of(result: Result<(), Chip8Error>) -> Option<Chip8Error> {
    match result {
        Ok(_) => None,
        Err(e) => Some(e),
    }
}

/// Once a cycle has failed, further bytes change nothing.
pub proof fn lemma_cycles_stop_at_failure(m: Machine, randoms: Seq<u8>, more: Seq<u8>)
    requires
        cycles(m, randoms).1 is Some,
    ensures
        cycles(m, randoms + more) == cycles(m, randoms),
    decreases more.len(),
{
    if more.len() == 0 {
        assert(randoms + more =~= randoms);
    } else {
        lemma_cycles_stop_at_failure(m, randoms, more.drop_last());
        assert((randoms + more).drop_last() =~= randoms + more.drop_last());
    }
}

/// One more cycle behind cycles that all went well.
proof fn lemma_cycles_extend(
    start: Machine,
    rest: Seq<u8>,
    random: u8,
    before: Machine,
    after: Machine,
    result: Result<(), Chip8Error>,
)
    requires
        cycles(start, rest) == (before, None::<Chip8Error>),
        match cycle(before, random) {
            Ok(m) => result is Ok && after == m,
            Err(e) => result == Err::<(), Chip8Error>(e) && after == before,
        },
    ensures
        cycles(start, rest.push(random)) == (after, failure_of(result)),
{
    assert(rest.push(random).drop_last() =~= rest);
}

/// Reads the opcode at the program counter.
pub fn fetch(state: &State) -> (result: Result<u16, Chip8Error>)
    ensures
        result == opcode_at(state@),
{
    let pc = state.pc as usize;
    if pc + 1 >= 4096 {
        return Err(Chip8Error::AddressOutOfRange);
    }
    let high = state.ram[pc] as u16;
    let low = state.ram[pc + 1] as u16;
    assert(high < 256 && low < 256 ==> (high << 8 | low) == high * 256 + low) by (bit_vector);
    Ok(high << 8 | low)
}

/// The instruction that the next cycle carries out, if the program counter
/// points at one.
pub fn upcoming(state: &State) -> (op: Option<Operation>)
    ensures
        match opcode_at(state@) {
            Ok(opcode) => op == Some(operation_of(opcode)),
            Err(_) => op is None,
        },
{
    match fetch(state) {
        Ok(opcode) => Some(decode(opcode)),
        Err(_) => None,
    }
}

/// Makes one cycle with `random` for the byte that `Rnd` masks. On an error
/// the machine is left as it was.
pub fn run_cycle_with(state: &mut State, random: u8) -> (result: Result<(), Chip8Error>)
    ensures
        carried_out(*old(state), *final(state), result, cycle(old(state)@, random)),
{
    let opcode = fetch(state)?;
    decode(opcode).execute(state, random)
}

/// Makes one cycle. On an error the machine is left as it was. Where the
/// instruction is `Rnd`, the byte it masks is drawn by chance.
pub fn run_cycle(state: &mut State) -> (result: Result<(), Chip8Error>)
    ensures
        exists|random: u8|
            carried_out(
                *old(state),
                *final(state),
                result,
                #[trigger] cycle(old(state)@, random),
            ),
{
    let random = match upcoming(state) {
        Some(Operation::Rnd { .. }) => random_byte(),
        _ => 0,
    };
    run_cycle_with(state, random)
}

/// Makes one cycle. `true` says that execution may go on; `false` that the
/// cycle could not be made, and the machine is then as it was.
pub fn execute(state: &mut State) -> (proceed: bool)
    ensures
        exists|random: u8|
            reported(*old(state), *final(state), proceed, #[trigger] cycle(old(state)@, random)),
{
    let result = run_cycle(state);
    proof {
        let random = choose|random: u8|
            carried_out(*old(state), *state, result, #[trigger] cycle(old(state)@, random));
        assert(reported(*old(state), *state, result is Ok, cycle(old(state)@, random)));
    }
    result.is_ok()
}

/// Counts both timers down by one; a timer at zero stays there.
pub fn update_timers(state: &mut State)
    ensures
        final(state)@ == ticked(old(state)@),
{
    if state.dt > 0 {
        state.dt -= 1;
    }
    if state.st > 0 {
        state.st -= 1;
    }
}

/// Makes up to `n` cycles and counts the timers down once, behind the first
/// cycle. The first cycle that fails ends the batch: its error is returned,
/// and the machine stays as the cycles before it left it.
pub fn step_batch(state: &mut State, n: usize) -> (result: Result<(), Chip8Error>)
    ensures
        exists|randoms: Seq<u8>|
            randoms.len() == n && #[trigger] batch(old(state)@, randoms) == (
                final(state)@,
                failure_of(result),
            ),
{
    if n == 0 {
        assert(batch(old(state)@, Seq::<u8>::empty()) == (state@, None::<Chip8Error>));
        return Ok(());
    }
    let first = run_cycle(state);
    let ghost head = choose|random: u8|
        carried_out(*old(state), *state, first, #[trigger] cycle(old(state)@, random));
    update_timers(state);
    let ghost start = state@;
    let ghost mut rest = Seq::<u8>::empty();
    if first.is_err() {
        proof {
            let randoms = seq![head] + Seq::new((n - 1) as nat, |k: int| 0u8);
            assert(randoms[0] == head);
            assert(batch(old(state)@, randoms) == (state@, failure_of(first)));
        }
        return first;
    }
    let mut outcome: Result<(), Chip8Error> = Ok(());
    let mut k: usize = 1;
    while k < n && outcome.is_ok()
        invariant
            1 <= k <= n,
            rest.len() == k - 1,
            cycles(start, rest) == (state@, failure_of(outcome)),
        decreases n - k,
    {
        let ghost before = *state;
        outcome = run_cycle(state);
        proof {
            let random = choose|random: u8|
                carried_out(before, *state, outcome, #[trigger] cycle(before@, random));
            lemma_cycles_extend(start, rest, random, before@, state@, outcome);
            rest = rest.push(random);
        }
        k = k + 1;
    }
    proof {
        let more = Seq::new((n - k) as nat, |k: int| 0u8);
        if outcome is Err {
            lemma_cycles_stop_at_failure(start, rest, more);
        } else {
            assert(rest + more =~= rest);
        }
        let randoms = seq![head] + (rest + more);
        assert(randoms.drop_first() =~= rest + more);
        assert(randoms[0] == head);
        assert(batch(old(state)@, randoms) == (state@, failure_of(outcome)));
    }
    outcome
}

} // verus!
