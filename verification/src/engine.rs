use crate::error::Chip8Error;
use crate::operation::Operation;
use crate::semantics::{
    add_i, add_registers, call, drw, highest_key, ld_b, load_regs, next, next_or_skip, ret,
    shift_left, shift_right, skip_on_key, step, store_regs, subtract, subtract_reversed,
    wait_key, with_memory, with_registers, with_v, Outcome,
};
use crate::state::{Machine, State};
use vstd::prelude::*;
use vstd::slice::slice_subrange;

verus! {

/// `result` and `after` are what `outcome` asks for: the machine it names
/// with `Ok`, or its error with the machine as it was.
pub open spec fn carried_out(
    before: State,
    after: State,
    result: Result<(), Chip8Error>,
    outcome: Outcome,
) -> bool {
    match outcome {
        Ok(m) => result is Ok && after@ == m,
        Err(e) => result == Err::<(), Chip8Error>(e) && after == before,
    }
}

/// The program counter after an instruction that does not jump.
fn pc_after(state: &State, skip: bool) -> (result: Result<u16, Chip8Error>)
    ensures
        match next_or_skip(state@, skip) {
            Ok(m) => result == Ok::<u16, Chip8Error>(m.pc),
            Err(e) => result == Err::<u16, Chip8Error>(e),
        },
{
    let by: u16 = if skip {
        4
    } else {
        2
    };
    if state.pc > 0xFFFF - by {
        Err(Chip8Error::AddressOutOfRange)
    } else {
        Ok(state.pc + by)
    }
}

/// Moves on to the next instruction, or past it.
fn go_on(state: &mut State, skip: bool) -> (result: Result<(), Chip8Error>)
    ensures
        carried_out(*old(state), *final(state), result, next_or_skip(old(state)@, skip)),
{
    let pc = pc_after(state, skip)?;
    state.pc = pc;
    assert(state@ =~~= next_or_skip(old(state)@, skip)->Ok_0);
    Ok(())
}

/// Sets `Vx` and moves on.
fn set_register(state: &mut State, x: u8, value: u8) -> (result: Result<(), Chip8Error>)
    requires
        x < 16,
    ensures
        carried_out(
            *old(state),
            *final(state),
            result,
            next(with_v(old(state)@, x as int, value)),
        ),
{
    let pc = pc_after(state, false)?;
    state.v[x as usize] = value;
    state.pc = pc;
    assert(state@ =~~= next(with_v(old(state)@, x as int, value))->Ok_0);
    Ok(())
}

/// Writes `VF`, then `Vx`, and moves on.
fn set_flag_and_register(state: &mut State, carry: u8, x: u8, value: u8) -> (result: Result<
    (),
    Chip8Error,
>)
    requires
        x < 16,
    ensures
        carried_out(
            *old(state),
            *final(state),
            result,
            next(with_v(with_v(old(state)@, 15, carry), x as int, value)),
        ),
{
    let pc = pc_after(state, false)?;
    state.v[15] = carry;
    state.v[x as usize] = value;
    state.pc = pc;
    assert(state@ =~~= next(with_v(with_v(old(state)@, 15, carry), x as int, value))->Ok_0);
    Ok(())
}

/// The value of `Vx` once `VF` holds `carry`.
fn after_flag(state: &State, carry: u8, x: u8) -> (value: u8)
    requires
        x < 16,
    ensures
        value == with_v(state@, 15, carry).v[x as int],
{
    if x == 15 {
        carry
    } else {
        state.v[x as usize]
    }
}

/// `8xy4`.
fn run_add_registers(state: &mut State, x: u8, y: u8) -> (result: Result<(), Chip8Error>)
    requires
        x < 16,
        y < 16,
    ensures
        carried_out(
            *old(state),
            *final(state),
            result,
            next(add_registers(old(state)@, x as int, y as int)),
        ),
{
    let sum: u16 = state.v[x as usize] as u16 + state.v[y as usize] as u16;
    let carry: u8 = if sum > 255 {
        1
    } else {
        0
    };
    set_flag_and_register(state, carry, x, (sum % 255) as u8)
}

/// `8xy5`.
fn run_subtract(state: &mut State, x: u8, y: u8) -> (result: Result<(), Chip8Error>)
    requires
        x < 16,
        y < 16,
    ensures
        carried_out(
            *old(state),
            *final(state),
            result,
            next(subtract(old(state)@, x as int, y as int)),
        ),
{
    let carry: u8 = if state.v[x as usize] > state.v[y as usize] {
        1
    } else {
        0
    };
    let left = after_flag(state, carry, x);
    let right = after_flag(state, carry, y);
    set_flag_and_register(state, carry, x, left.wrapping_sub(right))
}

/// `8xy7`.
fn run_subtract_reversed(state: &mut State, x: u8, y: u8) -> (result: Result<(), Chip8Error>)
    requires
        x < 16,
        y < 16,
    ensures
        carried_out(
            *old(state),
            *final(state),
            result,
            next(subtract_reversed(old(state)@, x as int, y as int)),
        ),
{
    let carry: u8 = if state.v[y as usize] > state.v[x as usize] {
        1
    } else {
        0
    };
    let left = after_flag(state, carry, y);
    let right = after_flag(state, carry, x);
    set_flag_and_register(state, carry, x, left.wrapping_sub(right))
}

/// `8xy6`.
fn run_shift_right(state: &mut State, x: u8) -> (result: Result<(), Chip8Error>)
    requires
        x < 16,
    ensures
        carried_out(*old(state), *final(state), result, next(shift_right(old(state)@, x as int))),
{
    let value = state.v[x as usize];
    assert(value & 0x01 == value % 2) by (bit_vector);
    let carry = value & 0x01;
    let value = after_flag(state, carry, x);
    assert(value >> 1 == value / 2) by (bit_vector);
    set_flag_and_register(state, carry, x, value >> 1)
}

/// `8xyE`.
fn run_shift_left(state: &mut State, x: u8) -> (result: Result<(), Chip8Error>)
    requires
        x < 16,
    ensures
        carried_out(*old(state), *final(state), result, next(shift_left(old(state)@, x as int))),
{
    let value = state.v[x as usize];
    assert((value & 0x80) >> 7 == value / 128) by (bit_vector);
    let carry = (value & 0x80) >> 7;
    let value = after_flag(state, carry, x);
    assert(value << 1 == (value * 2) % 256) by (bit_vector);
    set_flag_and_register(state, carry, x, value << 1)
}

/// `00EE`.
fn run_ret(state: &mut State) -> (result: Result<(), Chip8Error>)
    ensures
        carried_out(*old(state), *final(state), result, ret(old(state)@)),
{
    if state.sp == 0 {
        return Err(Chip8Error::StackUnderflow);
    }
    if state.sp > 16 {
        return Err(Chip8Error::StackOverflow);
    }
    let target = state.stack[(state.sp - 1) as usize];
    if target > 0xFFFF - 2 {
        return Err(Chip8Error::AddressOutOfRange);
    }
    state.sp -= 1;
    state.pc = target + 2;
    assert(state@ =~~= ret(old(state)@)->Ok_0);
    Ok(())
}

/// `2nnn`.
fn run_call(state: &mut State, addr: u16) -> (result: Result<(), Chip8Error>)
    ensures
        carried_out(*old(state), *final(state), result, call(old(state)@, addr)),
{
    let from = state.pc;
    state.push(from)?;
    state.pc = addr;
    assert(state@ =~~= call(old(state)@, addr)->Ok_0);
    Ok(())
}

/// `Dxyn`.
fn run_drw(state: &mut State, x: u8, y: u8, n: u8) -> (result: Result<(), Chip8Error>)
    requires
        x < 16,
        y < 16,
    ensures
        carried_out(
            *old(state),
            *final(state),
            result,
            drw(old(state)@, x as int, y as int, n as int),
        ),
{
    let from = state.i as usize;
    if from + n as usize > 4096 {
        return Err(Chip8Error::AddressOutOfRange);
    }
    let pc = pc_after(state, false)?;
    let sprite = slice_subrange(&state.ram, from, from + n as usize);
    let collision = state.display.display_sprite(
        state.v[x as usize],
        state.v[y as usize],
        sprite,
    );
    state.v[15] = if collision {
        1
    } else {
        0
    };
    state.pc = pc;
    assert(state@ =~~= drw(old(state)@, x as int, y as int, n as int)->Ok_0);
    Ok(())
}

/// `Ex9E` and `ExA1`.
fn run_skip_on_key(state: &mut State, x: u8, wanted: bool) -> (result: Result<(), Chip8Error>)
    requires
        x < 16,
    ensures
        carried_out(
            *old(state),
            *final(state),
            result,
            skip_on_key(old(state)@, x as int, wanted),
        ),
{
    let key = state.v[x as usize];
    if key >= 16 {
        return Err(Chip8Error::AddressOutOfRange);
    }
    let down = state.keypad[key as usize];
    go_on(state, down == wanted)
}

/// `Fx0A`.
fn run_wait_key(state: &mut State, x: u8) -> (result: Result<(), Chip8Error>)
    requires
        x < 16,
    ensures
        carried_out(*old(state), *final(state), result, wait_key(old(state)@, x as int)),
{
    let mut found: Option<u8> = None;
    let mut k: u8 = 0;
    while k < 16
        invariant
            k <= 16,
            found == highest_key(state@.keypad, k as int),
        decreases 16 - k,
    {
        if state.keypad[k as usize] {
            found = Some(k);
        }
        k = k + 1;
    }
    match found {
        Some(key) => set_register(state, x, key),
        None => Ok(()),
    }
}

/// `Fx1E`.
fn run_add_i(state: &mut State, x: u8) -> (result: Result<(), Chip8Error>)
    requires
        x < 16,
    ensures
        carried_out(*old(state), *final(state), result, add_i(old(state)@, x as int)),
{
    let by = state.v[x as usize] as u16;
    if state.i > 0xFFFF - by {
        return Err(Chip8Error::AddressOutOfRange);
    }
    let pc = pc_after(state, false)?;
    state.i = state.i + by;
    state.pc = pc;
    assert(state@ =~~= add_i(old(state)@, x as int)->Ok_0);
    Ok(())
}

/// `Fx33`.
fn run_ld_b(state: &mut State, x: u8) -> (result: Result<(), Chip8Error>)
    requires
        x < 16,
    ensures
        carried_out(*old(state), *final(state), result, ld_b(old(state)@, x as int)),
{
    let at = state.i as usize;
    if at + 2 >= 4096 {
        return Err(Chip8Error::AddressOutOfRange);
    }
    let pc = pc_after(state, false)?;
    let value = state.v[x as usize];
    state.ram[at] = value / 100;
    state.ram[at + 1] = (value / 10) % 10;
    state.ram[at + 2] = value % 10;
    state.pc = pc;
    assert(state@ =~~= ld_b(old(state)@, x as int)->Ok_0);
    Ok(())
}

/// `Fx55`.
fn run_store_regs(state: &mut State, x: u8) -> (result: Result<(), Chip8Error>)
    requires
        x < 16,
    ensures
        carried_out(*old(state), *final(state), result, store_regs(old(state)@, x as int)),
{
    let at = state.i as usize;
    if at + x as usize >= 4096 {
        return Err(Chip8Error::AddressOutOfRange);
    }
    let pc = pc_after(state, false)?;
    let mut k: usize = 0;
    while k <= x as usize
        invariant
            k <= x + 1,
            x < 16,
            at == old(state).i,
            at + x < 4096,
            state@ == (Machine { ram: state@.ram, ..old(state)@ }),
            state@.ram == with_registers(old(state)@.ram, at as int, old(state)@.v, k - 1),
        decreases x + 1 - k,
    {
        state.ram[at + k] = state.v[k];
        k = k + 1;
        assert(state@.ram =~= with_registers(old(state)@.ram, at as int, old(state)@.v, k - 1));
    }
    state.pc = pc;
    assert(state@ =~~= store_regs(old(state)@, x as int)->Ok_0);
    Ok(())
}

/// `Fx65`.
fn run_load_regs(state: &mut State, x: u8) -> (result: Result<(), Chip8Error>)
    requires
        x < 16,
    ensures
        carried_out(*old(state), *final(state), result, load_regs(old(state)@, x as int)),
{
    let at = state.i as usize;
    if at + x as usize >= 4096 {
        return Err(Chip8Error::AddressOutOfRange);
    }
    let pc = pc_after(state, false)?;
    let mut k: usize = 0;
    while k <= x as usize
        invariant
            k <= x + 1,
            x < 16,
            at == old(state).i,
            at + x < 4096,
            state@ == (Machine { v: state@.v, ..old(state)@ }),
            state@.v == with_memory(old(state)@.v, old(state)@.ram, at as int, k - 1),
        decreases x + 1 - k,
    {
        state.v[k] = state.ram[at + k];
        k = k + 1;
        assert(state@.v =~= with_memory(old(state)@.v, old(state)@.ram, at as int, k - 1));
    }
    state.pc = pc;
    assert(state@ =~~= load_regs(old(state)@, x as int)->Ok_0);
    Ok(())
}

impl Operation {
    /// Carries the instruction out on `state`. `random` is the byte that
    /// `Rnd` masks. On an error the machine is left as it was.
    pub fn execute(self, state: &mut State, random: u8) -> (result: Result<(), Chip8Error>)
        requires
            self.valid(),
        ensures
            carried_out(*old(state), *final(state), result, step(old(state)@, self, random)),
    {
        match self {
            Operation::Cls => {
                let pc = pc_after(state, false)?;
                state.display.reset();
                state.pc = pc;
                assert(state@ =~~= step(old(state)@, self, random)->Ok_0);
                Ok(())
            },
            Operation::Ret => run_ret(state),
            Operation::Sys { addr } | Operation::Jmp { addr } => {
                state.pc = addr;
                assert(state@ =~~= step(old(state)@, self, random)->Ok_0);
                Ok(())
            },
            Operation::Call { addr } => run_call(state, addr),
            Operation::SeByte { x, byte } => {
                let skip = state.v[x as usize] == byte;
                go_on(state, skip)
            },
            Operation::SneByte { x, byte } => {
                let skip = state.v[x as usize] != byte;
                go_on(state, skip)
            },
            Operation::SeReg { x, y } => {
                let skip = state.v[x as usize] == state.v[y as usize];
                go_on(state, skip)
            },
            Operation::SneReg { x, y } => {
                let skip = state.v[x as usize] != state.v[y as usize];
                go_on(state, skip)
            },
            Operation::LdByte { x, byte } => set_register(state, x, byte),
            Operation::AddByte { x, byte } => {
                let value = state.v[x as usize].wrapping_add(byte);
                set_register(state, x, value)
            },
            Operation::LdReg { x, y } => {
                let value = state.v[y as usize];
                set_register(state, x, value)
            },
            Operation::Or { x, y } => {
                let value = state.v[x as usize] | state.v[y as usize];
                set_register(state, x, value)
            },
            Operation::And { x, y } => {
                let value = state.v[x as usize] & state.v[y as usize];
                set_register(state, x, value)
            },
            Operation::Xor { x, y } => {
                let value = state.v[x as usize] ^ state.v[y as usize];
                set_register(state, x, value)
            },
            Operation::AddReg { x, y } => run_add_registers(state, x, y),
            Operation::Sub { x, y } => run_subtract(state, x, y),
            Operation::Subn { x, y } => run_subtract_reversed(state, x, y),
            Operation::Shr { x } => run_shift_right(state, x),
            Operation::Shl { x } => run_shift_left(state, x),
            Operation::LdI { addr } => {
                let pc = pc_after(state, false)?;
                state.i = addr;
                state.pc = pc;
                assert(state@ =~~= step(old(state)@, self, random)->Ok_0);
                Ok(())
            },
            Operation::JpV0 { addr } => {
                state.pc = state.v[0] as u16 + addr;
                assert(state@ =~~= step(old(state)@, self, random)->Ok_0);
                Ok(())
            },
            Operation::Rnd { x, byte } => set_register(state, x, random & byte),
            Operation::Drw { x, y, n } => run_drw(state, x, y, n),
            Operation::Skp { x } => run_skip_on_key(state, x, true),
            Operation::Sknp { x } => run_skip_on_key(state, x, false),
            Operation::LdVxDt { x } => {
                let value = state.dt;
                set_register(state, x, value)
            },
            Operation::LdVxK { x } => run_wait_key(state, x),
            Operation::LdDtVx { x } => {
                let pc = pc_after(state, false)?;
                state.dt = state.v[x as usize];
                state.pc = pc;
                assert(state@ =~~= step(old(state)@, self, random)->Ok_0);
                Ok(())
            },
            Operation::LdStVx { x } => {
                let pc = pc_after(state, false)?;
                state.st = state.v[x as usize];
                state.pc = pc;
                assert(state@ =~~= step(old(state)@, self, random)->Ok_0);
                Ok(())
            },
            Operation::AddI { x } => run_add_i(state, x),
            Operation::LdF { x } => {
                let pc = pc_after(state, false)?;
                state.i = state.v[x as usize] as u16 * 5;
                state.pc = pc;
                assert(state@ =~~= step(old(state)@, self, random)->Ok_0);
                Ok(())
            },
            Operation::LdB { x } => run_ld_b(state, x),
            Operation::StoreRegs { x } => run_store_regs(state, x),
            Operation::LoadRegs { x } => run_load_regs(state, x),
            Operation::Unknown { opcode } => Err(Chip8Error::UnknownOpcode { opcode }),
        }
    }
}

} // verus!
