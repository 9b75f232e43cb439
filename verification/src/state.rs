use crate::display::{binary, blank, well_shaped, Display, Grid};
use crate::error::Chip8Error;
use vstd::prelude::*;

verus! {

/// Bytes of memory.
pub const RAM_SIZE: usize = 4096;

/// Address at which programs are loaded and at which execution starts.
pub const PROGRAM_START: u16 = 0x200;

/// Number of return addresses the call stack holds.
pub const STACK_DEPTH: u8 = 16;

/// Bytes of one font glyph.
pub const GLYPH_SIZE: u16 = 5;

/// The glyphs of the sixteen hexadecimal digits, five bytes each, as they
/// lie at the bottom of memory.
pub const FONT: [u8; 80] = [
    0xF0, 0x90, 0x90, 0x90, 0xF0,
    0x20, 0x60, 0x20, 0x20, 0x70,
    0xF0, 0x10, 0xF0, 0x80, 0xF0,
    0xF0, 0x10, 0xF0, 0x10, 0xF0,
    0x90, 0x90, 0xF0, 0x10, 0x10,
    0xF0, 0x80, 0xF0, 0x10, 0xF0,
    0xF0, 0x80, 0xF0, 0x90, 0xF0,
    0xF0, 0x10, 0x20, 0x40, 0x40,
    0xF0, 0x90, 0xF0, 0x90, 0xF0,
    0xF0, 0x90, 0xF0, 0x10, 0xF0,
    0xF0, 0x90, 0xF0, 0x90, 0x90,
    0xE0, 0x90, 0xE0, 0x90, 0xE0,
    0xF0, 0x80, 0x80, 0x80, 0xF0,
    0xE0, 0x90, 0x90, 0x90, 0xE0,
    0xF0, 0x80, 0xF0, 0x80, 0xF0,
    0xF0, 0x80, 0xF0, 0x80, 0x80,
];

/// Everything the machine holds.
#[derive(Debug)]
pub struct State {
    /// Index register.
    pub i: u16,
    /// Program counter.
    pub pc: u16,
    /// Number of return addresses on the call stack.
    pub sp: u8,
    /// Delay timer.
    pub dt: u8,
    /// Sound timer.
    pub st: u8,
    /// General purpose registers `V0` to `VF`.
    pub v: [u8; 16],
    /// Call stack; the slots below `sp` are in use.
    pub stack: [u16; 16],
    /// The sixteen keys, `true` while held down.
    pub keypad: [bool; 16],
    /// Framebuffer.
    pub display: Display,
    /// Memory.
    pub ram: [u8; 4096],
}

/// The machine as mathematics: what a `State` holds, with sequences for its
/// arrays.
#[verifier::ext_equal]
pub struct Machine {
    pub i: u16,
    pub pc: u16,
    pub sp: u8,
    pub dt: u8,
    pub st: u8,
    pub v: Seq<u8>,
    pub stack: Seq<u16>,
    pub keypad: Seq<bool>,
    pub display: Grid,
    pub ram: Seq<u8>,
}

impl View for State {
    type V = Machine;

    open spec fn view(&self) -> Machine {
        Machine {
            i: self.i,
            pc: self.pc,
            sp: self.sp,
            dt: self.dt,
            st: self.st,
            v: self.v@,
            stack: self.stack@,
            keypad: self.keypad@,
            display: self.display@,
            ram: self.ram@,
        }
    }
}

/// The machine is one that a `State` can hold and that the instructions
/// keep: sixteen registers, sixteen stack slots of which at most sixteen are
/// in use, sixteen keys, 4096 bytes of memory, and a framebuffer of zeros
/// and ones.
pub open spec fn consistent(m: Machine) -> bool {
    &&& m.v.len() == 16
    &&& m.stack.len() == 16
    &&& m.keypad.len() == 16
    &&& m.ram.len() == 4096
    &&& m.sp <= 16
    &&& well_shaped(m.display)
    &&& binary(m.display)
}

/// Memory with the font written over its first eighty bytes.
pub open spec fn with_font(ram: Seq<u8>) -> Seq<u8> {
    Seq::new(
        4096,
        |a: int|
            if 0 <= a < 80 {
                FONT@[a]
            } else {
                ram[a]
            },
    )
}

/// The machine as it is switched on: everything zero, but for the font at the
/// bottom of memory and the program counter at the load address.
pub open spec fn power_on() -> Machine {
    Machine {
        i: 0,
        pc: 0x200,
        sp: 0,
        dt: 0,
        st: 0,
        v: Seq::new(16, |k: int| 0u8),
        stack: Seq::new(16, |k: int| 0u16),
        keypad: Seq::new(16, |k: int| false),
        display: blank(),
        ram: with_font(Seq::new(4096, |a: int| 0u8)),
    }
}

/// The machine after `value` was pushed on a call stack with room for it.
pub open spec fn pushed(m: Machine, value: u16) -> Machine {
    Machine { stack: m.stack.update(m.sp as int, value), sp: (m.sp + 1) as u8, ..m }
}

/// The machine after the top of a call stack that holds something was taken
/// off.
pub open spec fn popped(m: Machine) -> Machine {
    Machine { sp: (m.sp - 1) as u8, ..m }
}

/// The machine after `rom` was copied to the load address.
pub open spec fn loaded(m: Machine, rom: Seq<u8>) -> Machine {
    Machine {
        ram: Seq::new(
            4096,
            |a: int|
                if 0x200 <= a < 0x200 + rom.len() {
                    rom[a - 0x200]
                } else {
                    m.ram[a]
                },
        ),
        ..m
    }
}

impl State {
    /// The machine as it is switched on.
    pub fn new() -> (state: State)
        ensures
            state@ == power_on(),
    {
        let state = State {
            v: [0; 16],
            i: 0,
            pc: 0x200,
            sp: 0,
            stack: [0; 16],
            dt: 0,
            st: 0,
            display: Display::new(),
            keypad: [false; 16],
            ram: [0; 4096],
        }.fill_ram();
        assert(state@ =~~= power_on());
        state
    }

    /// Writes the font over the first eighty bytes of memory.
    fn fill_ram(self) -> (state: State)
        ensures
            state@ == (Machine { ram: with_font(self@.ram), ..self@ }),
    {
        let mut state = self;
        let mut a: usize = 0;
        while a < 80
            invariant
                a <= 80,
                state@ == (Machine { ram: state@.ram, ..self@ }),
                state@.ram.len() == 4096,
                forall|b: int| 0 <= b < a ==> #[trigger] state@.ram[b] == FONT@[b],
                forall|b: int| a <= b < 4096 ==> #[trigger] state@.ram[b] == self@.ram[b],
            decreases 80 - a,
        {
            state.ram[a] = FONT[a];
            a = a + 1;
        }
        assert(state@ =~~= (Machine { ram: with_font(self@.ram), ..self@ }));
        state
    }

    /// Pushes a return address on the call stack. A full stack is left as it
    /// is and reported.
    pub fn push(&mut self, value: u16) -> (result: Result<(), Chip8Error>)
        ensures
            old(self).sp >= 16 ==> result == Err::<(), Chip8Error>(Chip8Error::StackOverflow)
                && *final(self) == *old(self),
            old(self).sp < 16 ==> result is Ok && final(self)@ == pushed(old(self)@, value),
    {
        if self.sp >= 16 {
            return Err(Chip8Error::StackOverflow);
        }
        self.stack[self.sp as usize] = value;
        self.sp += 1;
        assert(self@ =~~= pushed(old(self)@, value));
        Ok(())
    }

    /// Takes the newest return address off the call stack. An empty stack,
    /// and a stack pointer beyond the stack, are left as they are and
    /// reported.
    pub fn pop(&mut self) -> (result: Result<u16, Chip8Error>)
        ensures
            old(self).sp == 0 ==> result == Err::<u16, Chip8Error>(Chip8Error::StackUnderflow)
                && *final(self) == *old(self),
            old(self).sp > 16 ==> result == Err::<u16, Chip8Error>(Chip8Error::StackOverflow)
                && *final(self) == *old(self),
            0 < old(self).sp <= 16 ==> result == Ok::<u16, Chip8Error>(
                old(self).stack@[old(self).sp - 1],
            ) && final(self)@ == popped(old(self)@),
    {
        if self.sp == 0 {
            return Err(Chip8Error::StackUnderflow);
        }
        if self.sp > 16 {
            return Err(Chip8Error::StackOverflow);
        }
        self.sp -= 1;
        assert(self@ =~~= popped(old(self)@));
        Ok(self.stack[self.sp as usize])
    }

    /// Copies a program to the load address. One that does not fit below the
    /// end of memory is refused, and memory is left as it is.
    pub fn load(&mut self, rom: &[u8]) -> (result: Result<(), Chip8Error>)
        ensures
            rom@.len() > 4096 - 0x200 ==> result == Err::<(), Chip8Error>(Chip8Error::RomTooLarge)
                && *final(self) == *old(self),
            rom@.len() <= 4096 - 0x200 ==> result is Ok && final(self)@ == loaded(
                old(self)@,
                rom@,
            ),
    {
        if rom.len() > 4096 - 0x200 {
            return Err(Chip8Error::RomTooLarge);
        }
        let mut k: usize = 0;
        while k < rom.len()
            invariant
                k <= rom.len() <= 4096 - 0x200,
                self@ == (Machine { ram: self@.ram, ..old(self)@ }),
                self@.ram.len() == 4096,
                forall|a: int| 0x200 <= a < 0x200 + k ==> #[trigger] self@.ram[a] == rom@[a - 0x200],
                forall|a: int|
                    0 <= a < 4096 && !(0x200 <= a < 0x200 + k) ==> #[trigger] self@.ram[a] == old(
                        self,
                    )@.ram[a],
            decreases rom.len() - k,
        {
            self.ram[0x200 + k] = rom[k];
            k = k + 1;
        }
        assert(self@ =~~= loaded(old(self)@, rom@));
        Ok(())
    }

    /// Replaces the state of all sixteen keys.
    pub fn set_keys(&mut self, keys: [bool; 16])
        ensures
            final(self)@ == (Machine { keypad: keys@, ..old(self)@ }),
    {
        self.keypad = keys;
    }
}

} // verus!
