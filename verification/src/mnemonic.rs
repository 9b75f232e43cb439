use crate::operation::Operation;
use vstd::prelude::*;

verus! {

/// The character for one hexadecimal digit, in upper case.
pub open spec fn hex_digit(d: int) -> char {
    "0123456789ABCDEF"@[d]
}

/// The lowest hexadecimal digit of `value`.
pub open spec fn hex1(value: int) -> Seq<char> {
    seq![hex_digit(value % 16)]
}

/// The two lowest hexadecimal digits of `value`.
pub open spec fn hex2(value: int) -> Seq<char> {
    seq![hex_digit(value / 16 % 16), hex_digit(value % 16)]
}

/// The three lowest hexadecimal digits of `value`.
pub open spec fn hex3(value: int) -> Seq<char> {
    seq![hex_digit(value / 256 % 16), hex_digit(value / 16 % 16), hex_digit(value % 16)]
}

/// The four lowest hexadecimal digits of `value`.
pub open spec fn hex4(value: int) -> Seq<char> {
    seq![
        hex_digit(value / 4096 % 16),
        hex_digit(value / 256 % 16),
        hex_digit(value / 16 % 16),
        hex_digit(value % 16),
    ]
}

/// How an instruction is written in a listing.
pub open spec fn mnemonic(op: Operation) -> Seq<char> {
    match op {
        Operation::Cls => "CLS"@,
        Operation::Ret => "RET"@,
        Operation::Sys { addr } => "SYS "@ + hex3(addr as int),
        Operation::Jmp { addr } => "JMP "@ + hex3(addr as int),
        Operation::Call { addr } => "CALL "@ + hex3(addr as int),
        Operation::SeByte { x, byte } => "SE V"@ + hex1(x as int) + ", "@ + hex2(byte as int),
        Operation::SneByte { x, byte } => "SNE V"@ + hex1(x as int) + ", "@ + hex2(byte as int),
        Operation::SeReg { x, y } => "SE V"@ + hex1(x as int) + ", V"@ + hex1(y as int),
        Operation::LdByte { x, byte } => "LD V"@ + hex1(x as int) + ", "@ + hex2(byte as int),
        Operation::AddByte { x, byte } => "ADD V"@ + hex1(x as int) + ", "@ + hex2(byte as int),
        Operation::LdReg { x, y } => "LD V"@ + hex1(x as int) + ", V"@ + hex1(y as int),
        Operation::Or { x, y } => "OR V"@ + hex1(x as int) + ", V"@ + hex1(y as int),
        Operation::And { x, y } => "AND V"@ + hex1(x as int) + ", V"@ + hex1(y as int),
        Operation::Xor { x, y } => "XOR V"@ + hex1(x as int) + ", V"@ + hex1(y as int),
        Operation::AddReg { x, y } => "ADD V"@ + hex1(x as int) + ", V"@ + hex1(y as int),
        Operation::Sub { x, y } => "SUB V"@ + hex1(x as int) + ", V"@ + hex1(y as int),
        Operation::Shr { x } => "SHR V"@ + hex1(x as int),
        Operation::Subn { x, y } => "SUBN V"@ + hex1(x as int) + ", V"@ + hex1(y as int),
        Operation::Shl { x } => "SHL V"@ + hex1(x as int),
        Operation::SneReg { x, y } => "SNE V"@ + hex1(x as int) + ", V"@ + hex1(y as int),
        Operation::LdI { addr } => "LD I, "@ + hex3(addr as int),
        Operation::JpV0 { addr } => "JP V0, "@ + hex3(addr as int),
        Operation::Rnd { x, byte } => "RND V"@ + hex1(x as int) + ", "@ + hex2(byte as int),
        Operation::Drw { x, y, n } => "DRW V"@ + hex1(x as int) + ", V"@ + hex1(y as int) + ", "@
            + hex1(n as int),
        Operation::Skp { x } => "SKP V"@ + hex1(x as int),
        Operation::Sknp { x } => "SKNP V"@ + hex1(x as int),
        Operation::LdVxDt { x } => "LD V"@ + hex1(x as int) + ", DT"@,
        Operation::LdVxK { x } => "LD V"@ + hex1(x as int) + ", K"@,
        Operation::LdDtVx { x } => "LD DT, V"@ + hex1(x as int),
        Operation::LdStVx { x } => "LD ST, V"@ + hex1(x as int),
        Operation::AddI { x } => "ADD I, V"@ + hex1(x as int),
        Operation::LdF { x } => "LD F, V"@ + hex1(x as int),
        Operation::LdB { x } => "LD B, V"@ + hex1(x as int),
        Operation::StoreRegs { x } => "LD [I], V"@ + hex1(x as int),
        Operation::LoadRegs { x } => "LD V"@ + hex1(x as int) + ", [I]"@,
        Operation::Unknown { opcode } => "Unknown instruction: "@ + hex4(opcode as int),
    }
}

/// The text of one hexadecimal digit.
fn digit(d: u16) -> (text: &'static str)
    requires
        d < 16,
    ensures
        text@ == seq![hex_digit(d as int)],
{
    let digits = "0123456789ABCDEF";
    proof {
        reveal_strlit("0123456789ABCDEF");
    }
    let text = digits.substring_ascii(d as usize, d as usize + 1);
    assert(text@ =~= seq![hex_digit(d as int)]);
    text
}

/// `start`, then the lowest hexadecimal digit of `value`.
fn with_hex1(start: String, value: u16) -> (text: String)
    ensures
        text@ == start@ + hex1(value as int),
{
    let mut text = start;
    text.append(digit(value % 16));
    text
}

/// `start`, then the two lowest hexadecimal digits of `value`.
fn with_hex2(start: String, value: u16) -> (text: String)
    ensures
        text@ == start@ + hex2(value as int),
{
    let mut text = start;
    text.append(digit(value / 16 % 16));
    text.append(digit(value % 16));
    assert(text@ =~= start@ + hex2(value as int));
    text
}

/// `start`, then the three lowest hexadecimal digits of `value`.
fn with_hex3(start: String, value: u16) -> (text: String)
    ensures
        text@ == start@ + hex3(value as int),
{
    let mut text = start;
    text.append(digit(value / 256 % 16));
    text.append(digit(value / 16 % 16));
    text.append(digit(value % 16));
    assert(text@ =~= start@ + hex3(value as int));
    text
}

/// `start`, then the four hexadecimal digits of `value`.
fn with_hex4(start: String, value: u16) -> (text: String)
    ensures
        text@ == start@ + hex4(value as int),
{
    let mut text = start;
    text.append(digit(value / 4096 % 16));
    text.append(digit(value / 256 % 16));
    text.append(digit(value / 16 % 16));
    text.append(digit(value % 16));
    assert(text@ =~= start@ + hex4(value as int));
    text
}

/// `name`, a register, `sep` and a second register: `SE V1, V2`.
fn two_registers(name: &str, x: u8, sep: &str, y: u8) -> (text: String)
    ensures
        text@ == name@ + hex1(x as int) + sep@ + hex1(y as int),
{
    let mut text = with_hex1(String::from_str(name), x as u16);
    text.append(sep);
    with_hex1(text, y as u16)
}

/// `name`, a register, `sep` and a byte: `SE V1, AA`.
fn register_and_byte(name: &str, x: u8, sep: &str, byte: u8) -> (text: String)
    ensures
        text@ == name@ + hex1(x as int) + sep@ + hex2(byte as int),
{
    let mut text = with_hex1(String::from_str(name), x as u16);
    text.append(sep);
    with_hex2(text, byte as u16)
}

/// `name` and a register: `SHR V1`.
fn one_register(name: &str, x: u8) -> (text: String)
    ensures
        text@ == name@ + hex1(x as int),
{
    with_hex1(String::from_str(name), x as u16)
}

/// `name`, a register and `tail`: `LD V1, DT`.
fn register_between(name: &str, x: u8, tail: &str) -> (text: String)
    ensures
        text@ == name@ + hex1(x as int) + tail@,
{
    let mut text = with_hex1(String::from_str(name), x as u16);
    text.append(tail);
    text
}

/// `name` and an address: `JMP ABC`.
fn with_address(name: &str, addr: u16) -> (text: String)
    ensures
        text@ == name@ + hex3(addr as int),
{
    with_hex3(String::from_str(name), addr)
}

/// An opcode as four hexadecimal digits.
pub fn opcode_text(opcode: u16) -> (text: String)
    ensures
        text@ == hex4(opcode as int),
{
    let text = with_hex4(String::new(), opcode);
    assert(text@ =~= hex4(opcode as int));
    text
}

impl Operation {
    /// How the instruction is written in a listing: its name and its
    /// operands in hexadecimal.
    pub fn mnemonic(self) -> (text: String)
        ensures
            text@ == mnemonic(self),
    {
        match self {
            Operation::Cls => String::from_str("CLS"),
            Operation::Ret => String::from_str("RET"),
            Operation::Sys { addr } => with_address("SYS ", addr),
            Operation::Jmp { addr } => with_address("JMP ", addr),
            Operation::Call { addr } => with_address("CALL ", addr),
            Operation::SeByte { x, byte } => register_and_byte("SE V", x, ", ", byte),
            Operation::SneByte { x, byte } => register_and_byte("SNE V", x, ", ", byte),
            Operation::SeReg { x, y } => two_registers("SE V", x, ", V", y),
            Operation::LdByte { x, byte } => register_and_byte("LD V", x, ", ", byte),
            Operation::AddByte { x, byte } => register_and_byte("ADD V", x, ", ", byte),
            Operation::LdReg { x, y } => two_registers("LD V", x, ", V", y),
            Operation::Or { x, y } => two_registers("OR V", x, ", V", y),
            Operation::And { x, y } => two_registers("AND V", x, ", V", y),
            Operation::Xor { x, y } => two_registers("XOR V", x, ", V", y),
            Operation::AddReg { x, y } => two_registers("ADD V", x, ", V", y),
            Operation::Sub { x, y } => two_registers("SUB V", x, ", V", y),
            Operation::Shr { x } => one_register("SHR V", x),
            Operation::Subn { x, y } => two_registers("SUBN V", x, ", V", y),
            Operation::Shl { x } => one_register("SHL V", x),
            Operation::SneReg { x, y } => two_registers("SNE V", x, ", V", y),
            Operation::LdI { addr } => with_address("LD I, ", addr),
            Operation::JpV0 { addr } => with_address("JP V0, ", addr),
            Operation::Rnd { x, byte } => register_and_byte("RND V", x, ", ", byte),
            Operation::Drw { x, y, n } => {
                let mut text = two_registers("DRW V", x, ", V", y);
                text.append(", ");
                with_hex1(text, n as u16)
            },
            Operation::Skp { x } => one_register("SKP V", x),
            Operation::Sknp { x } => one_register("SKNP V", x),
            Operation::LdVxDt { x } => register_between("LD V", x, ", DT"),
            Operation::LdVxK { x } => register_between("LD V", x, ", K"),
            Operation::LdDtVx { x } => one_register("LD DT, V", x),
            Operation::LdStVx { x } => one_register("LD ST, V", x),
            Operation::AddI { x } => one_register("ADD I, V", x),
            Operation::LdF { x } => one_register("LD F, V", x),
            Operation::LdB { x } => one_register("LD B, V", x),
            Operation::StoreRegs { x } => one_register("LD [I], V", x),
            Operation::LoadRegs { x } => register_between("LD V", x, ", [I]"),
            Operation::Unknown { opcode } => with_hex4(
                String::from_str("Unknown instruction: "),
                opcode,
            ),
        }
    }
}

} // verus!
