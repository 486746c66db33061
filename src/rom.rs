//! A program image as read by the host.

use vstd::prelude::*;

verus! {

/// The bytes of a program, to be handed to `Chip8::load`.
pub struct RomLoader {
    pub rom: Vec<u8>,
}

} // verus!
