use chipster8::instruction::Instruction;
use chipster8::opcode::{get_addr, get_byte, get_family, get_nibble, get_nnn, get_x, get_y};
use chipster8::operation::{decode, Operation};

#[test]
fn fields_of_an_opcode() {
    assert_eq!(0xD, get_family(0xD125));
    assert_eq!(0x1, get_x(0xD125));
    assert_eq!(0x2, get_y(0xD125));
    assert_eq!(0x5, get_nibble(0xD125));
    assert_eq!(0x25, get_byte(0xD125));
    assert_eq!(0x125, get_addr(0xD125));
    assert_eq!(0x125, get_nnn(0xD125));

    assert_eq!(0xF, get_family(0xFFFF));
    assert_eq!(0xF, get_x(0xFFFF));
    assert_eq!(0xF, get_y(0xFFFF));
    assert_eq!(0xF, get_nibble(0xFFFF));
    assert_eq!(0xFF, get_byte(0xFFFF));
    assert_eq!(0xFFF, get_addr(0xFFFF));

    assert_eq!(0, get_family(0x0000));
    assert_eq!(0, get_addr(0x0000));
}

#[test]
fn every_opcode_keeps_its_bits() {
    for opcode in 0..=0xFFFFu16 {
        assert_eq!(opcode, Instruction::new(opcode).opcode);
    }
}

#[test]
fn every_instruction_decodes() {
    assert_eq!(Operation::Cls, decode(0x00E0));
    assert_eq!(Operation::Ret, decode(0x00EE));
    assert_eq!(Operation::Sys { addr: 0x0E1 }, decode(0x00E1));
    assert_eq!(Operation::Sys { addr: 0x000 }, decode(0x0000));
    assert_eq!(Operation::Jmp { addr: 0xABC }, decode(0x1ABC));
    assert_eq!(Operation::Call { addr: 0xABC }, decode(0x2ABC));
    assert_eq!(Operation::SeByte { x: 1, byte: 0xAA }, decode(0x31AA));
    assert_eq!(Operation::SneByte { x: 1, byte: 0xAA }, decode(0x41AA));
    assert_eq!(Operation::SeReg { x: 0xA, y: 0xB }, decode(0x5AB0));
    assert_eq!(Operation::LdByte { x: 1, byte: 0xAA }, decode(0x61AA));
    assert_eq!(Operation::AddByte { x: 1, byte: 0xAA }, decode(0x71AA));
    assert_eq!(Operation::LdReg { x: 1, y: 2 }, decode(0x8120));
    assert_eq!(Operation::Or { x: 1, y: 2 }, decode(0x8121));
    assert_eq!(Operation::And { x: 1, y: 2 }, decode(0x8122));
    assert_eq!(Operation::Xor { x: 1, y: 2 }, decode(0x8123));
    assert_eq!(Operation::AddReg { x: 1, y: 2 }, decode(0x8124));
    assert_eq!(Operation::Sub { x: 1, y: 2 }, decode(0x8125));
    assert_eq!(Operation::Shr { x: 1 }, decode(0x8126));
    assert_eq!(Operation::Subn { x: 1, y: 2 }, decode(0x8127));
    assert_eq!(Operation::Shl { x: 1 }, decode(0x812E));
    assert_eq!(Operation::SneReg { x: 0xA, y: 0xB }, decode(0x9AB0));
    assert_eq!(Operation::LdI { addr: 0xAAA }, decode(0xAAAA));
    assert_eq!(Operation::JpV0 { addr: 0xAA0 }, decode(0xBAA0));
    assert_eq!(Operation::Rnd { x: 3, byte: 0x0F }, decode(0xC30F));
    assert_eq!(Operation::Drw { x: 1, y: 2, n: 5 }, decode(0xD125));
    assert_eq!(Operation::Skp { x: 1 }, decode(0xE19E));
    assert_eq!(Operation::Sknp { x: 1 }, decode(0xE1A1));
    assert_eq!(Operation::LdVxDt { x: 1 }, decode(0xF107));
    assert_eq!(Operation::LdVxK { x: 1 }, decode(0xF10A));
    assert_eq!(Operation::LdDtVx { x: 1 }, decode(0xF115));
    assert_eq!(Operation::LdStVx { x: 1 }, decode(0xF118));
    assert_eq!(Operation::AddI { x: 1 }, decode(0xF11E));
    assert_eq!(Operation::LdF { x: 1 }, decode(0xF129));
    assert_eq!(Operation::LdB { x: 1 }, decode(0xF133));
    assert_eq!(Operation::StoreRegs { x: 0xA }, decode(0xFA55));
    assert_eq!(Operation::LoadRegs { x: 0xA }, decode(0xFA65));
}

#[test]
fn families_5_and_9_ignore_the_last_digit() {
    assert_eq!(Operation::SeReg { x: 0xA, y: 0xB }, decode(0x5AB7));
    assert_eq!(Operation::SneReg { x: 0xA, y: 0xB }, decode(0x9ABF));
}

#[test]
fn opcodes_without_an_instruction_are_unknown() {
    for opcode in [0x8128u16, 0x812D, 0x812F, 0xE19F, 0xE100, 0xF100, 0xF1FF, 0xF166] {
        assert_eq!(Operation::Unknown { opcode }, decode(opcode));
    }
}

#[test]
fn unknown_opcodes_are_exactly_those_outside_the_table() {
    let mut unknown = 0u32;
    for opcode in 0..=0xFFFFu16 {
        if let Operation::Unknown { opcode: kept } = decode(opcode) {
            assert_eq!(opcode, kept);
            unknown += 1;
        }
    }
    // family 8: 7 of 16 last digits; family E: 254 of 256 low bytes;
    // family F: 247 of 256 low bytes
    assert_eq!(7 * 256 + 254 * 16 + 247 * 16, unknown);
}

#[test]
fn mnemonics() {
    let listing = |opcode: u16| Instruction::new(opcode).code;

    assert_eq!("CLS", listing(0x00E0));
    assert_eq!("RET", listing(0x00EE));
    assert_eq!("SYS ABC", listing(0x0ABC));
    assert_eq!("SYS 00A", listing(0x000A));
    assert_eq!("JMP ABC", listing(0x1ABC));
    assert_eq!("CALL 0BC", listing(0x20BC));
    assert_eq!("SE V1, AA", listing(0x31AA));
    assert_eq!("SNE VF, 0A", listing(0x4F0A));
    assert_eq!("SE V0, V1", listing(0x5010));
    assert_eq!("LD V1, AA", listing(0x61AA));
    assert_eq!("ADD V1, AA", listing(0x71AA));
    assert_eq!("LD V1, V2", listing(0x8120));
    assert_eq!("OR V1, V2", listing(0x8121));
    assert_eq!("AND V1, V2", listing(0x8122));
    assert_eq!("XOR V1, V2", listing(0x8123));
    assert_eq!("ADD V1, V2", listing(0x8124));
    assert_eq!("SUB V1, V2", listing(0x8125));
    assert_eq!("SHR V1", listing(0x8126));
    assert_eq!("SUBN V1, V2", listing(0x8127));
    assert_eq!("SHL V1", listing(0x812E));
    assert_eq!("SNE VA, VB", listing(0x9AB0));
    assert_eq!("LD I, AAA", listing(0xAAAA));
    assert_eq!("JP V0, AA0", listing(0xBAA0));
    assert_eq!("RND V3, 0F", listing(0xC30F));
    assert_eq!("DRW V1, V2, 5", listing(0xD125));
    assert_eq!("SKP V1", listing(0xE19E));
    assert_eq!("SKNP V1", listing(0xE1A1));
    assert_eq!("LD V1, DT", listing(0xF107));
    assert_eq!("LD V1, K", listing(0xF10A));
    assert_eq!("LD DT, V1", listing(0xF115));
    assert_eq!("LD ST, V1", listing(0xF118));
    assert_eq!("ADD I, V1", listing(0xF11E));
    assert_eq!("LD F, V1", listing(0xF129));
    assert_eq!("LD B, V1", listing(0xF133));
    assert_eq!("LD [I], VA", listing(0xFA55));
    assert_eq!("LD VA, [I]", listing(0xFA65));
    assert_eq!("Unknown instruction: 8128", listing(0x8128));
    assert_eq!("Unknown instruction: F0FF", listing(0xF0FF));
}

#[test]
fn mnemonic_of_an_operation() {
    assert_eq!("DRW VE, VF, 0", Operation::Drw { x: 14, y: 15, n: 0 }.mnemonic());
    assert_eq!("JMP 200", Operation::Jmp { addr: 0x200 }.mnemonic());
}

#[test]
fn opcode_as_text() {
    assert_eq!("00E0", Instruction::new(0x00E0).to_string());
    assert_eq!("D125", Instruction::new(0xD125).to_string());
    assert_eq!("FFFF", Instruction::new(0xFFFF).to_string());
    assert_eq!("000A", Instruction::new(0x000A).to_string());
}

#[test]
fn parse_chunk_decodes_in_order() {
    let program = Instruction::parse_chunk(vec![0x00E0, 0x1ABC, 0x8128, 0x61AA]);

    assert_eq!(4, program.len());
    assert_eq!(0x00E0, program[0].opcode);
    assert_eq!("CLS", program[0].code);
    assert_eq!(0x1ABC, program[1].opcode);
    assert_eq!("JMP ABC", program[1].code);
    assert_eq!(0x8128, program[2].opcode);
    assert_eq!("Unknown instruction: 8128", program[2].code);
    assert_eq!(0x61AA, program[3].opcode);
    assert_eq!(Operation::LdByte { x: 1, byte: 0xAA }, program[3].operation());

    assert!(Instruction::parse_chunk(Vec::new()).is_empty());
}
