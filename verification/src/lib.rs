//! A CHIP-8 virtual machine: memory, registers, call stack, timers, keypad
//! and a monochrome framebuffer, with the instruction set that drives them.
pub mod control;
pub mod cpu;
pub mod display;
pub mod engine;
pub mod error;
pub mod instruction;
pub mod laws;
pub mod mnemonic;
pub mod opcode;
pub mod operation;
pub mod random;
pub mod semantics;
pub mod state;
