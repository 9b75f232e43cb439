use crate::opcode::{
    addr_of, byte_of, family_of, get_addr, get_byte, get_family, get_nibble, get_nnn, get_x,
    get_y, nibble_of, x_of, y_of,
};
use vstd::prelude::*;

verus! {

/// An instruction of the machine with its operands taken apart.
///
/// `x` and `y` number registers, `byte` is an immediate value, `addr` a
/// twelve-bit address.
#[derive(Clone, Copy, Debug, PartialEq, Eq, Structural)]
pub enum Operation {
    /// `00E0`: clear the framebuffer.
    Cls,
    /// `00EE`: return from a subroutine.
    Ret,
    /// `0nnn`: jump to `addr`.
    Sys { addr: u16 },
    /// `1nnn`: jump to `addr`.
    Jmp { addr: u16 },
    /// `2nnn`: call the subroutine at `addr`.
    Call { addr: u16 },
    /// `3xkk`: skip the next instruction if `Vx == byte`.
    SeByte { x: u8, byte: u8 },
    /// `4xkk`: skip the next instruction if `Vx != byte`.
    SneByte { x: u8, byte: u8 },
    /// `5xy_`: skip the next instruction if `Vx == Vy`.
    SeReg { x: u8, y: u8 },
    /// `6xkk`: `Vx = byte`.
    LdByte { x: u8, byte: u8 },
    /// `7xkk`: `Vx += byte`, without a carry flag.
    AddByte { x: u8, byte: u8 },
    /// `8xy0`: `Vx = Vy`.
    LdReg { x: u8, y: u8 },
    /// `8xy1`: `Vx |= Vy`.
    Or { x: u8, y: u8 },
    /// `8xy2`: `Vx &= Vy`.
    And { x: u8, y: u8 },
    /// `8xy3`: `Vx ^= Vy`.
    Xor { x: u8, y: u8 },
    /// `8xy4`: `Vx += Vy`, `VF` the carry.
    AddReg { x: u8, y: u8 },
    /// `8xy5`: `Vx -= Vy`, `VF` set if nothing was borrowed.
    Sub { x: u8, y: u8 },
    /// `8xy6`: `Vx >>= 1`, `VF` the bit shifted out.
    Shr { x: u8 },
    /// `8xy7`: `Vx = Vy - Vx`, `VF` set if nothing was borrowed.
    Subn { x: u8, y: u8 },
    /// `8xyE`: `Vx <<= 1`, `VF` the bit shifted out.
    Shl { x: u8 },
    /// `9xy_`: skip the next instruction if `Vx != Vy`.
    SneReg { x: u8, y: u8 },
    /// `Annn`: `I = addr`.
    LdI { addr: u16 },
    /// `Bnnn`: jump to `addr + V0`.
    JpV0 { addr: u16 },
    /// `Cxkk`: `Vx = random & byte`.
    Rnd { x: u8, byte: u8 },
    /// `Dxyn`: draw the `n` bytes at `I` as a sprite at `(Vx, Vy)`, `VF` the
    /// collision.
    Drw { x: u8, y: u8, n: u8 },
    /// `Ex9E`: skip the next instruction if key `Vx` is down.
    Skp { x: u8 },
    /// `ExA1`: skip the next instruction if key `Vx` is up.
    Sknp { x: u8 },
    /// `Fx07`: `Vx = DT`.
    LdVxDt { x: u8 },
    /// `Fx0A`: `Vx` = a key that is down; stay on this instruction while none
    /// is.
    LdVxK { x: u8 },
    /// `Fx15`: `DT = Vx`.
    LdDtVx { x: u8 },
    /// `Fx18`: `ST = Vx`.
    LdStVx { x: u8 },
    /// `Fx1E`: `I += Vx`.
    AddI { x: u8 },
    /// `Fx29`: `I` = address of the glyph for `Vx`.
    LdF { x: u8 },
    /// `Fx33`: store the three decimal digits of `Vx` at `I`.
    LdB { x: u8 },
    /// `Fx55`: store `V0` to `Vx` at `I`.
    StoreRegs { x: u8 },
    /// `Fx65`: load `V0` to `Vx` from `I`.
    LoadRegs { x: u8 },
    /// Anything else.
    Unknown { opcode: u16 },
}

impl Operation {
    /// The operands are in range: registers below 16, addresses below 4096,
    /// a sprite of at most 15 rows.
    pub open spec fn valid(self) -> bool {
        match self {
            Operation::Cls | Operation::Ret | Operation::Unknown { .. } => true,
            Operation::Sys { addr }
            | Operation::Jmp { addr }
            | Operation::Call { addr }
            | Operation::LdI { addr }
            | Operation::JpV0 { addr } => addr < 0x1000,
            Operation::SeByte { x, .. }
            | Operation::SneByte { x, .. }
            | Operation::LdByte { x, .. }
            | Operation::AddByte { x, .. }
            | Operation::Rnd { x, .. }
            | Operation::Shr { x }
            | Operation::Shl { x }
            | Operation::Skp { x }
            | Operation::Sknp { x }
            | Operation::LdVxDt { x }
            | Operation::LdVxK { x }
            | Operation::LdDtVx { x }
            | Operation::LdStVx { x }
            | Operation::AddI { x }
            | Operation::LdF { x }
            | Operation::LdB { x }
            | Operation::StoreRegs { x }
            | Operation::LoadRegs { x } => x < 16,
            Operation::SeReg { x, y }
            | Operation::LdReg { x, y }
            | Operation::Or { x, y }
            | Operation::And { x, y }
            | Operation::Xor { x, y }
            | Operation::AddReg { x, y }
            | Operation::Sub { x, y }
            | Operation::Subn { x, y }
            | Operation::SneReg { x, y } => x < 16 && y < 16,
            Operation::Drw { x, y, n } => x < 16 && y < 16 && n < 16,
        }
    }
}

/// The instruction that an opcode stands for. The top digit picks the
/// family; families `0`, `8`, `E` and `F` look at the low digits too.
pub open spec fn operation_of(opcode: u16) -> Operation {
    let x = x_of(opcode) as u8;
    let y = y_of(opcode) as u8;
    let n = nibble_of(opcode) as u8;
    let byte = byte_of(opcode) as u8;
    let addr = addr_of(opcode) as u16;
    let family = family_of(opcode);
    if family == 0x0 {
        if opcode == 0x00E0 {
            Operation::Cls
        } else if opcode == 0x00EE {
            Operation::Ret
        } else {
            Operation::Sys { addr }
        }
    } else if family == 0x1 {
        Operation::Jmp { addr }
    } else if family == 0x2 {
        Operation::Call { addr }
    } else if family == 0x3 {
        Operation::SeByte { x, byte }
    } else if family == 0x4 {
        Operation::SneByte { x, byte }
    } else if family == 0x5 {
        Operation::SeReg { x, y }
    } else if family == 0x6 {
        Operation::LdByte { x, byte }
    } else if family == 0x7 {
        Operation::AddByte { x, byte }
    } else if family == 0x8 {
        if n == 0x0 {
            Operation::LdReg { x, y }
        } else if n == 0x1 {
            Operation::Or { x, y }
        } else if n == 0x2 {
            Operation::And { x, y }
        } else if n == 0x3 {
            Operation::Xor { x, y }
        } else if n == 0x4 {
            Operation::AddReg { x, y }
        } else if n == 0x5 {
            Operation::Sub { x, y }
        } else if n == 0x6 {
            Operation::Shr { x }
        } else if n == 0x7 {
            Operation::Subn { x, y }
        } else if n == 0xE {
            Operation::Shl { x }
        } else {
            Operation::Unknown { opcode }
        }
    } else if family == 0x9 {
        Operation::SneReg { x, y }
    } else if family == 0xA {
        Operation::LdI { addr }
    } else if family == 0xB {
        Operation::JpV0 { addr }
    } else if family == 0xC {
        Operation::Rnd { x, byte }
    } else if family == 0xD {
        Operation::Drw { x, y, n }
    } else if family == 0xE {
        if byte == 0x9E {
            Operation::Skp { x }
        } else if byte == 0xA1 {
            Operation::Sknp { x }
        } else {
            Operation::Unknown { opcode }
        }
    } else {
        if byte == 0x07 {
            Operation::LdVxDt { x }
        } else if byte == 0x0A {
            Operation::LdVxK { x }
        } else if byte == 0x15 {
            Operation::LdDtVx { x }
        } else if byte == 0x18 {
            Operation::LdStVx { x }
        } else if byte == 0x1E {
            Operation::AddI { x }
        } else if byte == 0x29 {
            Operation::LdF { x }
        } else if byte == 0x33 {
            Operation::LdB { x }
        } else if byte == 0x55 {
            Operation::StoreRegs { x }
        } else if byte == 0x65 {
            Operation::LoadRegs { x }
        } else {
            Operation::Unknown { opcode }
        }
    }
}

/// Takes an opcode apart.
pub fn decode(opcode: u16) -> (op: Operation)
    ensures
        op == operation_of(opcode),
        op.valid(),
{
    let x = get_x(opcode) as u8;
    let y = get_y(opcode) as u8;
    let n = get_nibble(opcode) as u8;
    let byte = get_byte(opcode);
    let addr = get_addr(opcode);
    match get_family(opcode) {
        0x0 => match opcode {
            0x00E0 => Operation::Cls,
            0x00EE => Operation::Ret,
            _ => Operation::Sys { addr },
        },
        0x1 => Operation::Jmp { addr: get_nnn(opcode) },
        0x2 => Operation::Call { addr },
        0x3 => Operation::SeByte { x, byte },
        0x4 => Operation::SneByte { x, byte },
        0x5 => Operation::SeReg { x, y },
        0x6 => Operation::LdByte { x, byte },
        0x7 => Operation::AddByte { x, byte },
        0x8 => match n {
            0x0 => Operation::LdReg { x, y },
            0x1 => Operation::Or { x, y },
            0x2 => Operation::And { x, y },
            0x3 => Operation::Xor { x, y },
            0x4 => Operation::AddReg { x, y },
            0x5 => Operation::Sub { x, y },
            0x6 => Operation::Shr { x },
            0x7 => Operation::Subn { x, y },
            0xE => Operation::Shl { x },
            _ => Operation::Unknown { opcode },
        },
        0x9 => Operation::SneReg { x, y },
        0xA => Operation::LdI { addr },
        0xB => Operation::JpV0 { addr },
        0xC => Operation::Rnd { x, byte },
        0xD => Operation::Drw { x, y, n },
        0xE => match byte {
            0x9E => Operation::Skp { x },
            0xA1 => Operation::Sknp { x },
            _ => Operation::Unknown { opcode },
        },
        _ => match byte {
            0x07 => Operation::LdVxDt { x },
            0x0A => Operation::LdVxK { x },
            0x15 => Operation::LdDtVx { x },
            0x18 => Operation::LdStVx { x },
            0x1E => Operation::AddI { x },
            0x29 => Operation::LdF { x },
            0x33 => Operation::LdB { x },
            0x55 => Operation::StoreRegs { x },
            0x65 => Operation::LoadRegs { x },
            _ => Operation::Unknown { opcode },
        },
    }
}

} // verus!
