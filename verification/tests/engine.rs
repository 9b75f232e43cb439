use chipster8::error::Chip8Error;
use chipster8::instruction::Instruction;
use chipster8::operation::Operation;
use chipster8::state::State;

fn run(state: &mut State, opcode: u16) -> Result<(), Chip8Error> {
    Instruction::new(opcode).execute(state)
}

fn untouched(state: &State, before: &State) -> bool {
    state.i == before.i
        && state.pc == before.pc
        && state.sp == before.sp
        && state.dt == before.dt
        && state.st == before.st
        && state.v == before.v
        && state.stack == before.stack
        && state.keypad == before.keypad
        && state.display.data == before.display.data
        && state.ram == before.ram
}

fn copy(state: &State) -> State {
    let mut twin = State::new();
    twin.i = state.i;
    twin.pc = state.pc;
    twin.sp = state.sp;
    twin.dt = state.dt;
    twin.st = state.st;
    twin.v = state.v;
    twin.stack = state.stack;
    twin.keypad = state.keypad;
    twin.display.data = state.display.data;
    twin.ram = state.ram;
    twin
}

#[test]
fn unknown_opcode_fails_and_changes_nothing() {
    let mut state = State::new();
    state.v[1] = 7;
    let before = copy(&state);

    assert_eq!(Err(Chip8Error::UnknownOpcode { opcode: 0x8128 }), run(&mut state, 0x8128));
    assert!(untouched(&state, &before));

    assert_eq!(false, Instruction::new(0xE1FF).function(&mut state));
    assert!(untouched(&state, &before));
}

#[test]
fn call_on_a_full_stack_overflows() {
    let mut state = State::new();
    for k in 0..16 {
        assert_eq!(Ok(()), run(&mut state, 0x2300 + k));
    }
    assert_eq!(16, state.sp);
    assert_eq!(0x30F, state.pc);
    let before = copy(&state);

    assert_eq!(Err(Chip8Error::StackOverflow), run(&mut state, 0x2ABC));
    assert!(untouched(&state, &before));
}

#[test]
fn ret_on_an_empty_stack_underflows() {
    let mut state = State::new();
    let before = copy(&state);

    assert_eq!(Err(Chip8Error::StackUnderflow), run(&mut state, 0x00EE));
    assert!(untouched(&state, &before));
}

#[test]
fn call_then_ret_goes_on_behind_the_call() {
    let mut state = State::new();
    state.pc = 0x2F0;

    assert_eq!(Ok(()), run(&mut state, 0x2ABC));
    assert_eq!(0xABC, state.pc);
    assert_eq!(1, state.sp);
    assert_eq!(0x2F0, state.stack[0]);

    assert_eq!(Ok(()), run(&mut state, 0x00EE));
    assert_eq!(0x2F2, state.pc);
    assert_eq!(0, state.sp);
}

#[test]
fn ret_to_the_top_of_the_address_space_is_out_of_range() {
    let mut state = State::new();
    state.stack[0] = 0xFFFE;
    state.sp = 1;
    let before = copy(&state);

    assert_eq!(Err(Chip8Error::AddressOutOfRange), run(&mut state, 0x00EE));
    assert!(untouched(&state, &before));

    state.stack[0] = 0xFFFD;
    assert_eq!(Ok(()), run(&mut state, 0x00EE));
    assert_eq!(0xFFFF, state.pc);
}

#[test]
fn jmp_sets_pc_from_any_start() {
    for start in [0x0000u16, 0x0200, 0x0ABC, 0x0FFE, 0x1000, 0xFFFF] {
        let mut state = State::new();
        state.pc = start;
        assert_eq!(Ok(()), run(&mut state, 0x1ABC));
        assert_eq!(0xABC, state.pc);
    }
}

#[test]
fn cls_clears_and_moves_on() {
    let mut state = State::new();
    state.display.display_sprite(9, 9, &[0xFF, 0xFF]);

    assert_eq!(Ok(()), run(&mut state, 0x00E0));

    assert!(state.display.is_clear());
    assert_eq!(0x202, state.pc);
}

#[test]
fn plain_instructions_move_on_by_two() {
    for opcode in [
        0x00E0u16, 0x61AA, 0x71AA, 0x8120, 0x8121, 0x8122, 0x8123, 0x8124, 0x8125, 0x8126, 0x8127,
        0x812E, 0xA123, 0xC1FF, 0xD121, 0xF107, 0xF115, 0xF118, 0xF11E, 0xF129, 0xF133, 0xF155,
        0xF165,
    ] {
        let mut state = State::new();
        state.i = 0x300;
        assert_eq!(Ok(()), run(&mut state, opcode));
        assert_eq!(0x202, state.pc, "{:04X}", opcode);
    }
}

#[test]
fn the_program_counter_does_not_wrap_round() {
    let mut state = State::new();
    state.pc = 0xFFFE;
    let before = copy(&state);

    assert_eq!(Err(Chip8Error::AddressOutOfRange), run(&mut state, 0x61AA));
    assert!(untouched(&state, &before));
    assert_eq!(Err(Chip8Error::AddressOutOfRange), run(&mut state, 0x00E0));
    assert!(untouched(&state, &before));

    // a skip that is taken needs room for four
    state.pc = 0xFFFC;
    state.v[1] = 0xAA;
    let before = copy(&state);
    assert_eq!(Err(Chip8Error::AddressOutOfRange), run(&mut state, 0x31AA));
    assert!(untouched(&state, &before));
    // one that is not taken needs room for two
    assert_eq!(Ok(()), run(&mut state, 0x31AB));
    assert_eq!(0xFFFE, state.pc);
}

#[test]
fn add_byte_wraps_without_touching_vf() {
    let mut state = State::new();
    state.v[1] = 0xFF;
    state.v[15] = 0x55;

    assert_eq!(Ok(()), run(&mut state, 0x7102));

    assert_eq!(0x01, state.v[1]);
    assert_eq!(0x55, state.v[15]);
}

#[test]
fn add_registers_stores_the_sum_modulo_255() {
    let mut state = State::new();

    // 255 + 0 = 255, which is 0 modulo 255, and no carry
    state.v[1] = 0xFF;
    state.v[2] = 0x00;
    assert_eq!(Ok(()), run(&mut state, 0x8124));
    assert_eq!(0, state.v[1]);
    assert_eq!(0, state.v[15]);

    // 255 + 1 = 256, which is 1 modulo 255, with carry
    state.v[1] = 0xFF;
    state.v[2] = 0x01;
    assert_eq!(Ok(()), run(&mut state, 0x8124));
    assert_eq!(1, state.v[1]);
    assert_eq!(1, state.v[15]);

    // 255 + 255 = 510, which is 0 modulo 255, with carry
    state.v[1] = 0xFF;
    state.v[2] = 0xFF;
    assert_eq!(Ok(()), run(&mut state, 0x8124));
    assert_eq!(0, state.v[1]);
    assert_eq!(1, state.v[15]);

    // 0xFF + 0xF0 = 495, which is 240 modulo 255
    state.v[1] = 0xFF;
    state.v[2] = 0xF0;
    assert_eq!(Ok(()), run(&mut state, 0x8124));
    assert_eq!(240, state.v[1]);
    assert_eq!(1, state.v[15]);
}

#[test]
fn add_registers_into_vf_keeps_the_sum() {
    let mut state = State::new();
    state.v[15] = 200;
    state.v[2] = 100;

    // 8F24: VF += V2; the carry is written first, the sum over it
    assert_eq!(Ok(()), run(&mut state, 0x8F24));

    assert_eq!(45, state.v[15]);
}

#[test]
fn sub_sets_vf_only_when_strictly_greater() {
    let mut state = State::new();

    state.v[1] = 7;
    state.v[2] = 7;
    assert_eq!(Ok(()), run(&mut state, 0x8125));
    assert_eq!(0, state.v[1]);
    assert_eq!(0, state.v[15]);

    state.v[1] = 0x00;
    state.v[2] = 0x01;
    assert_eq!(Ok(()), run(&mut state, 0x8125));
    assert_eq!(0xFF, state.v[1]);
    assert_eq!(0, state.v[15]);

    // 0x80 - 0x01 does not fit a signed byte; it is 0x7F all the same
    state.v[1] = 0x80;
    state.v[2] = 0x01;
    assert_eq!(Ok(()), run(&mut state, 0x8125));
    assert_eq!(0x7F, state.v[1]);
    assert_eq!(1, state.v[15]);
}

#[test]
fn sub_reads_its_operands_after_the_flag_is_written() {
    let mut state = State::new();

    // 81F5: V1 -= VF. VF becomes 0 (5 > 9 is false), then V1 = 5 - 0.
    state.v[1] = 5;
    state.v[15] = 9;
    assert_eq!(Ok(()), run(&mut state, 0x81F5));
    assert_eq!(5, state.v[1]);
    assert_eq!(0, state.v[15]);

    // 8F15: VF -= V1. VF becomes 1 (9 > 5), then VF = 1 - 5.
    state.v[1] = 5;
    state.v[15] = 9;
    assert_eq!(Ok(()), run(&mut state, 0x8F15));
    assert_eq!(252, state.v[15]);
}

#[test]
fn subn_subtracts_vx_from_vy() {
    let mut state = State::new();

    state.v[1] = 3;
    state.v[2] = 10;
    assert_eq!(Ok(()), run(&mut state, 0x8127));
    assert_eq!(7, state.v[1]);
    assert_eq!(10, state.v[2]);
    assert_eq!(1, state.v[15]);

    state.v[1] = 10;
    state.v[2] = 3;
    assert_eq!(Ok(()), run(&mut state, 0x8127));
    assert_eq!(249, state.v[1]);
    assert_eq!(0, state.v[15]);
}

#[test]
fn shifts_ignore_vy_and_keep_the_bit_shifted_out() {
    let mut state = State::new();

    state.v[1] = 0b1010_0101;
    state.v[2] = 0xFF;
    assert_eq!(Ok(()), run(&mut state, 0x8126));
    assert_eq!(0b0101_0010, state.v[1]);
    assert_eq!(1, state.v[15]);
    assert_eq!(0xFF, state.v[2]);

    state.v[1] = 0b1010_0101;
    assert_eq!(Ok(()), run(&mut state, 0x812E));
    assert_eq!(0b0100_1010, state.v[1]);
    assert_eq!(1, state.v[15]);

    state.v[1] = 0b0111_1110;
    assert_eq!(Ok(()), run(&mut state, 0x812E));
    assert_eq!(0b1111_1100, state.v[1]);
    assert_eq!(0, state.v[15]);
}

#[test]
fn shifting_vf_shifts_the_flag() {
    let mut state = State::new();

    // 8F06: VF takes its own low bit, and that is then halved
    state.v[15] = 0xFF;
    assert_eq!(Ok(()), run(&mut state, 0x8F06));
    assert_eq!(0, state.v[15]);

    // 8F0E: VF takes its own high bit, and that is then doubled
    state.v[15] = 0xFF;
    assert_eq!(Ok(()), run(&mut state, 0x8F0E));
    assert_eq!(2, state.v[15]);
}

#[test]
fn jp_v0_adds_v0_to_the_address() {
    let mut state = State::new();
    state.v[0] = 0xFF;

    assert_eq!(Ok(()), run(&mut state, 0xBFFF));

    assert_eq!(0x10FE, state.pc);
}

#[test]
fn rnd_masks_the_random_byte() {
    let mut state = State::new();

    assert_eq!(Ok(()), Operation::Rnd { x: 1, byte: 0x0F }.execute(&mut state, 0xAB));
    assert_eq!(0x0B, state.v[1]);
    assert_eq!(0x202, state.pc);

    assert_eq!(Ok(()), Operation::Rnd { x: 1, byte: 0xFF }.execute(&mut state, 0xAB));
    assert_eq!(0xAB, state.v[1]);

    assert_eq!(Ok(()), Operation::Rnd { x: 1, byte: 0x00 }.execute(&mut state, 0xAB));
    assert_eq!(0x00, state.v[1]);
}

#[test]
fn rnd_stays_under_its_mask() {
    let mut state = State::new();
    for _ in 0..200 {
        state.pc = 0x200;
        state.v[1] = 0xFF;
        assert_eq!(Ok(()), run(&mut state, 0xC13C));
        assert_eq!(0, state.v[1] & !0x3C);
    }
}

#[test]
fn rnd_draws_more_than_one_value() {
    let mut state = State::new();
    let mut seen = [false; 256];
    for _ in 0..400 {
        state.pc = 0x200;
        assert_eq!(Ok(()), run(&mut state, 0xC1FF));
        seen[state.v[1] as usize] = true;
    }

    assert!(seen.iter().filter(|hit| **hit).count() > 16);
}

#[test]
fn only_rnd_looks_at_the_random_byte() {
    let mut first = State::new();
    let mut second = State::new();
    first.v[2] = 9;
    second.v[2] = 9;

    assert_eq!(Ok(()), Operation::AddByte { x: 2, byte: 3 }.execute(&mut first, 0x00));
    assert_eq!(Ok(()), Operation::AddByte { x: 2, byte: 3 }.execute(&mut second, 0xFF));

    assert!(untouched(&first, &second));
    assert_eq!(12, first.v[2]);
}

#[test]
fn drw_reads_the_sprite_at_i_and_reports_collision_in_vf() {
    let mut state = State::new();
    state.ram[0x300] = 0xC0;
    state.ram[0x301] = 0x30;
    state.i = 0x300;
    state.v[1] = 62;
    state.v[2] = 31;
    state.v[15] = 7;

    assert_eq!(Ok(()), run(&mut state, 0xD122));
    assert_eq!(0, state.v[15]);
    assert_eq!(1, state.display.data[31][62]);
    assert_eq!(1, state.display.data[31][63]);
    assert_eq!(1, state.display.data[0][0]);
    assert_eq!(1, state.display.data[0][1]);
    assert_eq!(0, state.display.data[0][2]);
    assert_eq!(0x300, state.i);

    // one pixel over the old ones: collision
    state.v[1] = 63;
    assert_eq!(Ok(()), run(&mut state, 0xD121));
    assert_eq!(1, state.v[15]);
    assert_eq!(0, state.display.data[31][63]);
    assert_eq!(1, state.display.data[31][0]);
}

#[test]
fn drw_of_no_rows_draws_nothing() {
    let mut state = State::new();
    state.v[15] = 1;

    assert_eq!(Ok(()), run(&mut state, 0xD120));

    assert!(state.display.is_clear());
    assert_eq!(0, state.v[15]);
    assert_eq!(0x202, state.pc);
}

#[test]
fn drw_beyond_memory_is_out_of_range() {
    let mut state = State::new();
    state.i = 4096 - 4;
    state.ram[4095] = 0x80;

    // four rows end at the last byte
    assert_eq!(Ok(()), run(&mut state, 0xD124));
    assert_eq!(1, state.display.data[3][0]);

    // five would pass it
    let before = copy(&state);
    assert_eq!(Err(Chip8Error::AddressOutOfRange), run(&mut state, 0xD125));
    assert!(untouched(&state, &before));
}

#[test]
fn skp_and_sknp_with_a_key_number_beyond_the_keypad_are_out_of_range() {
    let mut state = State::new();
    state.v[1] = 16;
    let before = copy(&state);

    assert_eq!(Err(Chip8Error::AddressOutOfRange), run(&mut state, 0xE19E));
    assert!(untouched(&state, &before));
    assert_eq!(Err(Chip8Error::AddressOutOfRange), run(&mut state, 0xE1A1));
    assert!(untouched(&state, &before));

    state.v[1] = 15;
    state.keypad[15] = true;
    assert_eq!(Ok(()), run(&mut state, 0xE19E));
    assert_eq!(0x204, state.pc);
}

#[test]
fn ld_vx_k_stalls_until_a_key_is_down() {
    let mut state = State::new();
    state.v[1] = 0x77;

    assert_eq!(Ok(()), run(&mut state, 0xF10A));
    assert_eq!(0x200, state.pc);
    assert_eq!(0x77, state.v[1]);

    state.keypad[0] = true;
    assert_eq!(Ok(()), run(&mut state, 0xF10A));
    assert_eq!(0x202, state.pc);
    assert_eq!(0, state.v[1]);
}

#[test]
fn ld_vx_k_takes_the_highest_key_and_moves_on_once() {
    let mut state = State::new();
    state.keypad[3] = true;
    state.keypad[7] = true;
    state.keypad[5] = true;

    assert_eq!(Ok(()), run(&mut state, 0xF10A));

    assert_eq!(7, state.v[1]);
    assert_eq!(0x202, state.pc);
}

#[test]
fn add_i_is_not_masked_to_twelve_bits() {
    let mut state = State::new();
    state.i = 0x0FFF;
    state.v[1] = 1;

    assert_eq!(Ok(()), run(&mut state, 0xF11E));
    assert_eq!(0x1000, state.i);

    state.i = 0xFF00;
    state.v[1] = 0xFF;
    assert_eq!(Ok(()), run(&mut state, 0xF11E));
    assert_eq!(0xFFFF, state.i);
}

#[test]
fn add_i_does_not_wrap_round() {
    let mut state = State::new();
    state.i = 0xFFFF;
    state.v[1] = 1;
    let before = copy(&state);

    assert_eq!(Err(Chip8Error::AddressOutOfRange), run(&mut state, 0xF11E));
    assert!(untouched(&state, &before));
}

#[test]
fn ld_f_points_i_at_five_bytes_per_glyph() {
    let mut state = State::new();

    state.v[1] = 0xF;
    assert_eq!(Ok(()), run(&mut state, 0xF129));
    assert_eq!(75, state.i);
    assert_eq!([0xF0, 0x80, 0xF0, 0x80, 0x80], state.ram[75..80]);

    state.v[1] = 0xFF;
    assert_eq!(Ok(()), run(&mut state, 0xF129));
    assert_eq!(1275, state.i);
}

#[test]
fn ld_b_writes_hundreds_tens_and_ones() {
    let mut state = State::new();
    state.i = 0x300;

    state.v[1] = 255;
    assert_eq!(Ok(()), run(&mut state, 0xF133));
    assert_eq!([2, 5, 5], state.ram[0x300..0x303]);

    state.v[1] = 7;
    assert_eq!(Ok(()), run(&mut state, 0xF133));
    assert_eq!([0, 0, 7], state.ram[0x300..0x303]);

    state.v[1] = 40;
    assert_eq!(Ok(()), run(&mut state, 0xF133));
    assert_eq!([0, 4, 0], state.ram[0x300..0x303]);
    assert_eq!(0x300, state.i);
}

#[test]
fn ld_b_beyond_memory_is_out_of_range() {
    let mut state = State::new();
    state.v[1] = 123;

    state.i = 4093;
    assert_eq!(Ok(()), run(&mut state, 0xF133));
    assert_eq!([1, 2, 3], state.ram[4093..4096]);

    state.i = 4094;
    let before = copy(&state);
    assert_eq!(Err(Chip8Error::AddressOutOfRange), run(&mut state, 0xF133));
    assert!(untouched(&state, &before));
}

#[test]
fn store_and_load_registers_take_v0_to_vx_inclusive() {
    let mut state = State::new();
    for k in 0..16 {
        state.v[k] = 0x10 + k as u8;
    }
    state.i = 0x400;

    assert_eq!(Ok(()), run(&mut state, 0xF255));
    assert_eq!([0x10, 0x11, 0x12, 0x00], state.ram[0x400..0x404]);
    assert_eq!(0x400, state.i);

    state.ram[0x400] = 0xA0;
    state.ram[0x401] = 0xA1;
    state.ram[0x402] = 0xA2;
    state.ram[0x403] = 0xA3;
    assert_eq!(Ok(()), run(&mut state, 0xF165));
    assert_eq!([0xA0, 0xA1, 0x12, 0x13], state.v[0..4]);

    assert_eq!(Ok(()), run(&mut state, 0xF055));
    assert_eq!(0xA0, state.ram[0x400]);
}

#[test]
fn store_and_load_registers_beyond_memory_are_out_of_range() {
    let mut state = State::new();
    state.v[0] = 1;
    state.v[1] = 2;

    state.i = 4094;
    assert_eq!(Ok(()), run(&mut state, 0xF155));
    assert_eq!([1, 2], state.ram[4094..4096]);
    assert_eq!(Ok(()), run(&mut state, 0xF165));

    state.i = 4095;
    let before = copy(&state);
    assert_eq!(Err(Chip8Error::AddressOutOfRange), run(&mut state, 0xF155));
    assert!(untouched(&state, &before));
    assert_eq!(Err(Chip8Error::AddressOutOfRange), run(&mut state, 0xF165));
    assert!(untouched(&state, &before));
}

#[test]
fn timers_are_copied_without_side_effects() {
    let mut state = State::new();
    state.v[1] = 0x42;

    assert_eq!(Ok(()), run(&mut state, 0xF115));
    assert_eq!(0x42, state.dt);
    assert_eq!(0, state.st);
    assert_eq!(Ok(()), run(&mut state, 0xF118));
    assert_eq!(0x42, state.st);
    state.dt = 0x17;
    assert_eq!(Ok(()), run(&mut state, 0xF207));
    assert_eq!(0x17, state.v[2]);
    assert_eq!(0x17, state.dt);
}

#[test]
fn function_reports_failure_as_false() {
    let mut state = State::new();

    assert_eq!(true, Instruction::new(0x61AA).function(&mut state));
    assert_eq!(false, Instruction::new(0x00EE).function(&mut state));
    assert_eq!(false, Instruction::new(0xFFFF).function(&mut state));
    assert_eq!(0x202, state.pc);
    assert_eq!(0xAA, state.v[1]);
}
