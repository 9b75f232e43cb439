use chipster8::error::Chip8Error;
use chipster8::state::State;

#[test]
fn push_test() {
    let mut state = State::new();

    assert_eq!(Ok(()), state.push(0xABC));
    assert_eq!(0, state.sp - 1);
    assert_eq!(0xABC, state.stack[(state.sp - 1) as usize]);
}

#[test]
fn pop_test() {
    let mut state = State::new();

    state.stack[0] = 0xABC;
    state.sp = 1;
    assert_eq!(Ok(0xABC), state.pop());
    assert_eq!(0, state.sp);
}

#[test]
fn new_state_is_zero_but_for_font_and_pc() {
    let state = State::new();

    assert_eq!(0x200, state.pc);
    assert_eq!(0, state.i);
    assert_eq!(0, state.sp);
    assert_eq!(0, state.dt);
    assert_eq!(0, state.st);
    assert_eq!([0u8; 16], state.v);
    assert_eq!([0u16; 16], state.stack);
    assert_eq!([false; 16], state.keypad);
    assert!(state.display.is_clear());
    assert_eq!(4096, state.ram.len());
    assert_eq!([0xF0, 0x90, 0x90, 0x90, 0xF0], state.ram[0..5]);
    assert_eq!([0xF0, 0x80, 0xF0, 0x80, 0x80], state.ram[75..80]);
    assert!(state.ram[80..].iter().all(|byte| *byte == 0));
}

#[test]
fn push_fills_sixteen_slots_and_refuses_the_next() {
    let mut state = State::new();

    for k in 0..16u16 {
        assert_eq!(Ok(()), state.push(0x300 + k));
    }
    assert_eq!(16, state.sp);
    assert_eq!(0x30F, state.stack[15]);

    assert_eq!(Err(Chip8Error::StackOverflow), state.push(0x400));
    assert_eq!(16, state.sp);
    assert_eq!(0x30F, state.stack[15]);
}

#[test]
fn pop_returns_newest_first_and_refuses_an_empty_stack() {
    let mut state = State::new();

    state.push(0x111).unwrap();
    state.push(0x222).unwrap();
    assert_eq!(Ok(0x222), state.pop());
    assert_eq!(Ok(0x111), state.pop());
    assert_eq!(Err(Chip8Error::StackUnderflow), state.pop());
    assert_eq!(0, state.sp);
}

#[test]
fn pop_refuses_a_stack_pointer_beyond_the_stack() {
    let mut state = State::new();

    state.sp = 17;
    assert_eq!(Err(Chip8Error::StackOverflow), state.pop());
    assert_eq!(17, state.sp);
}

#[test]
fn load_copies_the_program_to_0x200() {
    let mut state = State::new();

    assert_eq!(Ok(()), state.load(&[0x12, 0x34, 0x56]));
    assert_eq!([0x12, 0x34, 0x56, 0x00], state.ram[0x200..0x204]);
    assert_eq!(0x80, state.ram[79]);
    assert_eq!(0, state.ram[0x1FF]);
    assert_eq!(0x200, state.pc);
}

#[test]
fn load_takes_a_program_that_fills_memory_and_refuses_a_longer_one() {
    let mut state = State::new();

    let full = vec![0xAB; 4096 - 0x200];
    assert_eq!(Ok(()), state.load(&full));
    assert_eq!(0xAB, state.ram[0x200]);
    assert_eq!(0xAB, state.ram[4095]);

    let mut state = State::new();
    let long = vec![0xCD; 4096 - 0x200 + 1];
    assert_eq!(Err(Chip8Error::RomTooLarge), state.load(&long));
    assert!(state.ram[0x200..].iter().all(|byte| *byte == 0));
}

#[test]
fn set_keys_replaces_the_keypad() {
    let mut state = State::new();
    state.keypad[3] = true;

    let mut keys = [false; 16];
    keys[0] = true;
    keys[15] = true;
    state.set_keys(keys);

    assert_eq!(keys, state.keypad);
}
