//! A CHIP-8 interpreter core: opcode decoding, instruction semantics, timers
//! and the key-wait state machine, with their behaviour stated as contracts.

pub mod font;
pub mod lemmas;
pub mod chip8;
pub mod opcode;
pub mod rom;
