use vstd::prelude::*;

verus! {

/// The top four bits of an opcode, which pick the family of instructions.
pub open spec fn family_of(opcode: u16) -> int {
    opcode as int / 0x1000
}

/// The `x` of an opcode `_x__`: its second hexadecimal digit.
pub open spec fn x_of(opcode: u16) -> int {
    (opcode as int / 0x100) % 0x10
}

/// The `y` of an opcode `__y_`: its third hexadecimal digit.
pub open spec fn y_of(opcode: u16) -> int {
    (opcode as int / 0x10) % 0x10
}

/// The `n` of an opcode `___n`: its last hexadecimal digit.
pub open spec fn nibble_of(opcode: u16) -> int {
    opcode as int % 0x10
}

/// The `kk` of an opcode `__kk`: its low byte.
pub open spec fn byte_of(opcode: u16) -> int {
    opcode as int % 0x100
}

/// The `nnn` of an opcode `_nnn`: its low twelve bits.
pub open spec fn addr_of(opcode: u16) -> int {
    opcode as int % 0x1000
}

/// The family of instructions that an opcode belongs to.
pub fn get_family(opcode: u16) -> (family: u16)
    ensures
        family == family_of(opcode),
        family < 0x10,
{
    assert((opcode & 0xF000) >> 12 == opcode / 0x1000) by (bit_vector);
    (opcode & 0xF000) >> 12
}

/// The register index `x` of an opcode.
pub fn get_x(opcode: u16) -> (x: u16)
    ensures
        x == x_of(opcode),
        x < 0x10,
{
    assert((opcode & 0x0F00) >> 8 == (opcode / 0x100) % 0x10) by (bit_vector);
    (opcode & 0x0F00) >> 8
}

/// The register index `y` of an opcode.
pub fn get_y(opcode: u16) -> (y: u16)
    ensures
        y == y_of(opcode),
        y < 0x10,
{
    assert((opcode & 0x00F0) >> 4 == (opcode / 0x10) % 0x10) by (bit_vector);
    (opcode & 0x00F0) >> 4
}

/// The twelve-bit operand of an opcode.
pub fn get_nnn(opcode: u16) -> (nnn: u16)
    ensures
        nnn == addr_of(opcode),
        nnn < 0x1000,
{
    assert(opcode & 0x0FFF == opcode % 0x1000) by (bit_vector);
    opcode & 0x0FFF
}

/// The address operand of an opcode.
pub fn get_addr(opcode: u16) -> (addr: u16)
    ensures
        addr == addr_of(opcode),
        addr < 0x1000,
{
    assert(opcode & 0x0FFF == opcode % 0x1000) by (bit_vector);
    opcode & 0x0FFF
}

/// The four-bit operand of an opcode.
pub fn get_nibble(opcode: u16) -> (n: u16)
    ensures
        n == nibble_of(opcode),
        n < 0x10,
{
    assert(opcode & 0x000F == opcode % 0x10) by (bit_vector);
    opcode & 0x000F
}

/// The byte operand of an opcode.
pub fn get_byte(opcode: u16) -> (byte: u8)
    ensures
        byte == byte_of(opcode),
{
    assert(opcode & 0x00FF == opcode % 0x100) by (bit_vector);
    (opcode & 0x00FF) as u8
}

} // verus!
