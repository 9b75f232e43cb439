use crate::display::{blank, collides, draw};
use crate::error::Chip8Error;
use crate::operation::Operation;
use crate::state::{popped, pushed, Machine};
use vstd::prelude::*;

verus! {

/// What becomes of the machine when an instruction is carried out: the
/// machine after it, or the reason why it was left alone.
pub type Outcome = Result<Machine, Chip8Error>;

/// The machine with register `Vx` set.
pub open spec fn with_v(m: Machine, x: int, value: u8) -> Machine {
    Machine { v: m.v.update(x, value), ..m }
}

/// The machine with the program counter moved on by `by` bytes. The counter
/// does not wrap round.
pub open spec fn advanced(m: Machine, by: int) -> Outcome {
    if m.pc + by > 0xFFFF {
        Err(Chip8Error::AddressOutOfRange)
    } else {
        Ok(Machine { pc: (m.pc + by) as u16, ..m })
    }
}

/// The machine moved on to the next instruction.
pub open spec fn next(m: Machine) -> Outcome {
    advanced(m, 2)
}

/// The machine moved on to the next instruction, or past it if `skip`.
pub open spec fn next_or_skip(m: Machine, skip: bool) -> Outcome {
    advanced(
        m,
        if skip {
            4
        } else {
            2
        },
    )
}

/// 1 for `true`, 0 for `false`.
pub open spec fn flag(b: bool) -> u8 {
    if b {
        1
    } else {
        0
    }
}

/// The highest of the keys below `below` that is held down.
pub open spec fn highest_key(keypad: Seq<bool>, below: int) -> Option<u8>
    decreases below,
{
    if below <= 0 {
        None
    } else if keypad[below - 1] {
        Some((below - 1) as u8)
    } else {
        highest_key(keypad, below - 1)
    }
}

/// Memory with the three decimal digits of `value` at `at`.
pub open spec fn with_digits(ram: Seq<u8>, at: int, value: u8) -> Seq<u8> {
    ram.update(at, value / 100).update(at + 1, (value / 10) % 10).update(at + 2, value % 10)
}

/// Memory with registers `V0` to `Vx` at `at`.
pub open spec fn with_registers(ram: Seq<u8>, at: int, v: Seq<u8>, x: int) -> Seq<u8> {
    Seq::new(
        ram.len(),
        |a: int|
            if at <= a <= at + x {
                v[a - at]
            } else {
                ram[a]
            },
    )
}

/// Registers with `V0` to `Vx` read from memory at `at`.
pub open spec fn with_memory(v: Seq<u8>, ram: Seq<u8>, at: int, x: int) -> Seq<u8> {
    Seq::new(
        v.len(),
        |k: int|
            if 0 <= k <= x {
                ram[at + k]
            } else {
                v[k]
            },
    )
}

/// `00EE`: the newest return address comes off the stack, and execution goes
/// on behind the call that put it there.
pub open spec fn ret(m: Machine) -> Outcome {
    if m.sp == 0 {
        Err(Chip8Error::StackUnderflow)
    } else if m.sp > 16 {
        Err(Chip8Error::StackOverflow)
    } else {
        next(Machine { pc: m.stack[m.sp - 1], ..popped(m) })
    }
}

/// `2nnn`: the address of the call goes on the stack, and execution goes on
/// at `addr`.
pub open spec fn call(m: Machine, addr: u16) -> Outcome {
    if m.sp >= 16 {
        Err(Chip8Error::StackOverflow)
    } else {
        Ok(Machine { pc: addr, ..pushed(m, m.pc) })
    }
}

/// `8xy4`: `VF` is set if the sum does not fit in a byte, then `Vx` takes the
/// sum modulo 255.
pub open spec fn add_registers(m: Machine, x: int, y: int) -> Machine {
    let sum = m.v[x] + m.v[y];
    with_v(with_v(m, 15, flag(sum > 255)), x, (sum % 255) as u8)
}

/// `8xy5`: `VF` is set if `Vx > Vy`, then `Vx` takes `Vx - Vy` modulo 256.
/// The subtraction reads the registers after the flag was written.
pub open spec fn subtract(m: Machine, x: int, y: int) -> Machine {
    let flagged = with_v(m, 15, flag(m.v[x] > m.v[y]));
    with_v(flagged, x, ((flagged.v[x] - flagged.v[y]) % 256) as u8)
}

/// `8xy7`: `VF` is set if `Vy > Vx`, then `Vx` takes `Vy - Vx` modulo 256.
/// The subtraction reads the registers after the flag was written.
pub open spec fn subtract_reversed(m: Machine, x: int, y: int) -> Machine {
    let flagged = with_v(m, 15, flag(m.v[y] > m.v[x]));
    with_v(flagged, x, ((flagged.v[y] - flagged.v[x]) % 256) as u8)
}

/// `8xy6`: `VF` takes the lowest bit of `Vx`, then `Vx` is halved.
pub open spec fn shift_right(m: Machine, x: int) -> Machine {
    let flagged = with_v(m, 15, m.v[x] % 2);
    with_v(flagged, x, flagged.v[x] / 2)
}

/// `8xyE`: `VF` takes the highest bit of `Vx`, then `Vx` is doubled modulo
/// 256.
pub open spec fn shift_left(m: Machine, x: int) -> Machine {
    let flagged = with_v(m, 15, m.v[x] / 128);
    with_v(flagged, x, ((flagged.v[x] * 2) % 256) as u8)
}

/// `Dxyn`: the `n` bytes at `I` are drawn at `(Vx, Vy)`, and `VF` says
/// whether a lit pixel went out.
pub open spec fn drw(m: Machine, x: int, y: int, n: int) -> Outcome {
    if m.i + n > 4096 {
        Err(Chip8Error::AddressOutOfRange)
    } else {
        let sprite = m.ram.subrange(m.i as int, m.i + n);
        let drawn = Machine { display: draw(m.display, m.v[x], m.v[y], sprite), ..m };
        next(with_v(drawn, 15, flag(collides(m.display, m.v[x], m.v[y], sprite))))
    }
}

/// `Ex9E` and `ExA1`: the next instruction is skipped if key `Vx` is down
/// (`wanted`) or up (`!wanted`).
pub open spec fn skip_on_key(m: Machine, x: int, wanted: bool) -> Outcome {
    if m.v[x] >= 16 {
        Err(Chip8Error::AddressOutOfRange)
    } else {
        next_or_skip(m, m.keypad[m.v[x] as int] == wanted)
    }
}

/// `Fx0A`: with a key down, `Vx` takes the number of the highest such key and
/// execution moves on; with none down, nothing changes.
pub open spec fn wait_key(m: Machine, x: int) -> Outcome {
    match highest_key(m.keypad, 16) {
        Some(key) => next(with_v(m, x, key)),
        None => Ok(m),
    }
}

/// `Fx1E`: `I` grows by `Vx`, and does not wrap round.
pub open spec fn add_i(m: Machine, x: int) -> Outcome {
    if m.i + m.v[x] > 0xFFFF {
        Err(Chip8Error::AddressOutOfRange)
    } else {
        next(Machine { i: (m.i + m.v[x]) as u16, ..m })
    }
}

/// `Fx33`: the hundreds, tens and ones of `Vx` go to memory at `I`, `I + 1`
/// and `I + 2`.
pub open spec fn ld_b(m: Machine, x: int) -> Outcome {
    if m.i + 2 >= 4096 {
        Err(Chip8Error::AddressOutOfRange)
    } else {
        next(Machine { ram: with_digits(m.ram, m.i as int, m.v[x]), ..m })
    }
}

/// `Fx55`: `V0` to `Vx` go to memory from `I` on.
pub open spec fn store_regs(m: Machine, x: int) -> Outcome {
    if m.i + x >= 4096 {
        Err(Chip8Error::AddressOutOfRange)
    } else {
        next(Machine { ram: with_registers(m.ram, m.i as int, m.v, x), ..m })
    }
}

/// `Fx65`: `V0` to `Vx` are read from memory from `I` on.
pub open spec fn load_regs(m: Machine, x: int) -> Outcome {
    if m.i + x >= 4096 {
        Err(Chip8Error::AddressOutOfRange)
    } else {
        next(Machine { v: with_memory(m.v, m.ram, m.i as int, x), ..m })
    }
}

/// What one instruction does to the machine. `random` is the byte that `Rnd`
/// masks; no other instruction looks at it.
///
/// Jumps and calls set the program counter; every other instruction moves it
/// on by two, and a skip that is taken by four. An instruction that cannot be
/// carried out changes nothing.
pub open spec fn step(m: Machine, op: Operation, random: u8) -> Outcome {
    match op {
        Operation::Cls => next(Machine { display: blank(), ..m }),
        Operation::Ret => ret(m),
        Operation::Sys { addr } => Ok(Machine { pc: addr, ..m }),
        Operation::Jmp { addr } => Ok(Machine { pc: addr, ..m }),
        Operation::Call { addr } => call(m, addr),
        Operation::SeByte { x, byte } => next_or_skip(m, m.v[x as int] == byte),
        Operation::SneByte { x, byte } => next_or_skip(m, m.v[x as int] != byte),
        Operation::SeReg { x, y } => next_or_skip(m, m.v[x as int] == m.v[y as int]),
        Operation::SneReg { x, y } => next_or_skip(m, m.v[x as int] != m.v[y as int]),
        Operation::LdByte { x, byte } => next(with_v(m, x as int, byte)),
        Operation::AddByte { x, byte } => next(
            with_v(m, x as int, ((m.v[x as int] + byte) % 256) as u8),
        ),
        Operation::LdReg { x, y } => next(with_v(m, x as int, m.v[y as int])),
        Operation::Or { x, y } => next(with_v(m, x as int, m.v[x as int] | m.v[y as int])),
        Operation::And { x, y } => next(with_v(m, x as int, m.v[x as int] & m.v[y as int])),
        Operation::Xor { x, y } => next(with_v(m, x as int, m.v[x as int] ^ m.v[y as int])),
        Operation::AddReg { x, y } => next(add_registers(m, x as int, y as int)),
        Operation::Sub { x, y } => next(subtract(m, x as int, y as int)),
        Operation::Subn { x, y } => next(subtract_reversed(m, x as int, y as int)),
        Operation::Shr { x } => next(shift_right(m, x as int)),
        Operation::Shl { x } => next(shift_left(m, x as int)),
        Operation::LdI { addr } => next(Machine { i: addr, ..m }),
        Operation::JpV0 { addr } => Ok(Machine { pc: (m.v[0] + addr) as u16, ..m }),
        Operation::Rnd { x, byte } => next(with_v(m, x as int, random & byte)),
        Operation::Drw { x, y, n } => drw(m, x as int, y as int, n as int),
        Operation::Skp { x } => skip_on_key(m, x as int, true),
        Operation::Sknp { x } => skip_on_key(m, x as int, false),
        Operation::LdVxDt { x } => next(with_v(m, x as int, m.dt)),
        Operation::LdVxK { x } => wait_key(m, x as int),
        Operation::LdDtVx { x } => next(Machine { dt: m.v[x as int], ..m }),
        Operation::LdStVx { x } => next(Machine { st: m.v[x as int], ..m }),
        Operation::AddI { x } => add_i(m, x as int),
        Operation::LdF { x } => next(Machine { i: (m.v[x as int] * 5) as u16, ..m }),
        Operation::LdB { x } => ld_b(m, x as int),
        Operation::StoreRegs { x } => store_regs(m, x as int),
        Operation::LoadRegs { x } => load_regs(m, x as int),
        Operation::Unknown { opcode } => Err(Chip8Error::UnknownOpcode { opcode }),
    }
}

} // verus!
