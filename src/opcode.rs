//! Decoding of 16-bit CHIP-8 instruction words into operations, and the inverse
//! encoding.

use vstd::prelude::*;

verus! {

/// One decoded CHIP-8 instruction. Register indices (`x`, `y`) and the sprite
/// height `n` are 4-bit fields, `kk` an 8-bit immediate, `addr` a 12-bit address.
#[derive(Clone, Copy, Debug, PartialEq, Eq, Structural)]
pub enum Operation {
    /// 0nnn: machine-code routine, executed as a no-op.
    Sys { addr: u16 },
    /// 00E0
    ClearScreen,
    /// 00EE
    Return,
    /// 1nnn
    Jump { addr: u16 },
    /// 2nnn
    Call { addr: u16 },
    /// 3xkk
    SkipEqImm { x: u8, kk: u8 },
    /// 4xkk
    SkipNeImm { x: u8, kk: u8 },
    /// 5xy0
    SkipEqReg { x: u8, y: u8 },
    /// 6xkk
    LoadImm { x: u8, kk: u8 },
    /// 7xkk
    AddImm { x: u8, kk: u8 },
    /// 8xy0
    Copy { x: u8, y: u8 },
    /// 8xy1
    Or { x: u8, y: u8 },
    /// 8xy2
    And { x: u8, y: u8 },
    /// 8xy3
    Xor { x: u8, y: u8 },
    /// 8xy4
    AddReg { x: u8, y: u8 },
    /// 8xy5: saturates at zero rather than wrapping.
    Sub { x: u8, y: u8 },
    /// 8xy6 (the shifted value is read from Vx; `y` is carried but unused)
    ShiftRight { x: u8, y: u8 },
    /// 8xy7: saturates at zero rather than wrapping.
    SubReverse { x: u8, y: u8 },
    /// 8xyE (the shifted value is read from Vx; `y` is carried but unused)
    ShiftLeft { x: u8, y: u8 },
    /// 9xy0
    SkipNeReg { x: u8, y: u8 },
    /// Annn
    SetIndex { addr: u16 },
    /// Bnnn
    JumpOffset { addr: u16 },
    /// Cxkk
    Random { x: u8, kk: u8 },
    /// Dxyn
    Draw { x: u8, y: u8, n: u8 },
    /// Ex9E
    SkipKey { x: u8 },
    /// ExA1
    SkipNoKey { x: u8 },
    /// Fx07
    ReadDelay { x: u8 },
    /// Fx0A
    WaitKey { x: u8 },
    /// Fx15
    SetDelay { x: u8 },
    /// Fx18
    SetSound { x: u8 },
    /// Fx1E
    AddIndex { x: u8 },
    /// Fx29
    FontGlyph { x: u8 },
    /// Fx33
    Bcd { x: u8 },
    /// Fx55: stores V0 to V(x-1); Vx itself is not stored.
    StoreRegs { x: u8 },
    /// Fx65: loads V0 to V(x-1); Vx itself is not loaded.
    LoadRegs { x: u8 },
    /// Any word that matches none of the patterns above.
    Unknown { op: u16 },
}

/// Highest nibble: the operation class.
pub open spec fn class_of(op: u16) -> u16 {
    op >> 12
}

pub open spec fn x_of(op: u16) -> u16 {
    (op >> 8) & 0xF
}

pub open spec fn y_of(op: u16) -> u16 {
    (op >> 4) & 0xF
}

pub open spec fn n_of(op: u16) -> u16 {
    op & 0xF
}

pub open spec fn kk_of(op: u16) -> u16 {
    op & 0xFF
}

pub open spec fn addr_of(op: u16) -> u16 {
    op & 0xFFF
}

/// The operation that an instruction word denotes. Patterns are tried in
/// order; the exact words 00E0 and 00EE take precedence over 0nnn.
pub open spec fn spec_decode(op: u16) -> Operation {
    let c = class_of(op);
    let x = x_of(op) as u8;
    let y = y_of(op) as u8;
    let n = n_of(op);
    let kk = kk_of(op) as u8;
    let addr = addr_of(op);
    if op == 0x00E0 {
        Operation::ClearScreen
    } else if op == 0x00EE {
        Operation::Return
    } else if c == 0 {
        Operation::Sys { addr }
    } else if c == 1 {
        Operation::Jump { addr }
    } else if c == 2 {
        Operation::Call { addr }
    } else if c == 3 {
        Operation::SkipEqImm { x, kk }
    } else if c == 4 {
        Operation::SkipNeImm { x, kk }
    } else if c == 5 && n == 0 {
        Operation::SkipEqReg { x, y }
    } else if c == 6 {
        Operation::LoadImm { x, kk }
    } else if c == 7 {
        Operation::AddImm { x, kk }
    } else if c == 8 && n == 0 {
        Operation::Copy { x, y }
    } else if c == 8 && n == 1 {
        Operation::Or { x, y }
    } else if c == 8 && n == 2 {
        Operation::And { x, y }
    } else if c == 8 && n == 3 {
        Operation::Xor { x, y }
    } else if c == 8 && n == 4 {
        Operation::AddReg { x, y }
    } else if c == 8 && n == 5 {
        Operation::Sub { x, y }
    } else if c == 8 && n == 6 {
        Operation::ShiftRight { x, y }
    } else if c == 8 && n == 7 {
        Operation::SubReverse { x, y }
    } else if c == 8 && n == 0xE {
        Operation::ShiftLeft { x, y }
    } else if c == 9 && n == 0 {
        Operation::SkipNeReg { x, y }
    } else if c == 0xA {
        Operation::SetIndex { addr }
    } else if c == 0xB {
        Operation::JumpOffset { addr }
    } else if c == 0xC {
        Operation::Random { x, kk }
    } else if c == 0xD {
        Operation::Draw { x, y, n: n as u8 }
    } else if c == 0xE && kk == 0x9E {
        Operation::SkipKey { x }
    } else if c == 0xE && kk == 0xA1 {
        Operation::SkipNoKey { x }
    } else if c == 0xF && kk == 0x07 {
        Operation::ReadDelay { x }
    } else if c == 0xF && kk == 0x0A {
        Operation::WaitKey { x }
    } else if c == 0xF && kk == 0x15 {
        Operation::SetDelay { x }
    } else if c == 0xF && kk == 0x18 {
        Operation::SetSound { x }
    } else if c == 0xF && kk == 0x1E {
        Operation::AddIndex { x }
    } else if c == 0xF && kk == 0x29 {
        Operation::FontGlyph { x }
    } else if c == 0xF && kk == 0x33 {
        Operation::Bcd { x }
    } else if c == 0xF && kk == 0x55 {
        Operation::StoreRegs { x }
    } else if c == 0xF && kk == 0x65 {
        Operation::LoadRegs { x }
    } else {
        Operation::Unknown { op }
    }
}


/// Decodes one instruction word.
pub fn decode(op: u16) -> (r: Operation)
    ensures
        r == spec_decode(op),
        r.wf(),
{
    proof {
        lemma_encode_decode(op);
    }
    let c: u16 = op >> 12;
    let x: u8 = ((op >> 8) & 0xF) as u8;
    let y: u8 = ((op >> 4) & 0xF) as u8;
    let n: u16 = op & 0xF;
    let kk: u8 = (op & 0xFF) as u8;
    let addr: u16 = op & 0xFFF;
    if op == 0x00E0 {
        Operation::ClearScreen
    } else if op == 0x00EE {
        Operation::Return
    } else if c == 0 {
        Operation::Sys { addr }
    } else if c == 1 {
        Operation::Jump { addr }
    } else if c == 2 {
        Operation::Call { addr }
    } else if c == 3 {
        Operation::SkipEqImm { x, kk }
    } else if c == 4 {
        Operation::SkipNeImm { x, kk }
    } else if c == 5 && n == 0 {
        Operation::SkipEqReg { x, y }
    } else if c == 6 {
        Operation::LoadImm { x, kk }
    } else if c == 7 {
        Operation::AddImm { x, kk }
    } else if c == 8 && n == 0 {
        Operation::Copy { x, y }
    } else if c == 8 && n == 1 {
        Operation::Or { x, y }
    } else if c == 8 && n == 2 {
        Operation::And { x, y }
    } else if c == 8 && n == 3 {
        Operation::Xor { x, y }
    } else if c == 8 && n == 4 {
        Operation::AddReg { x, y }
    } else if c == 8 && n == 5 {
        Operation::Sub { x, y }
    } else if c == 8 && n == 6 {
        Operation::ShiftRight { x, y }
    } else if c == 8 && n == 7 {
        Operation::SubReverse { x, y }
    } else if c == 8 && n == 0xE {
        Operation::ShiftLeft { x, y }
    } else if c == 9 && n == 0 {
        Operation::SkipNeReg { x, y }
    } else if c == 0xA {
        Operation::SetIndex { addr }
    } else if c == 0xB {
        Operation::JumpOffset { addr }
    } else if c == 0xC {
        Operation::Random { x, kk }
    } else if c == 0xD {
        Operation::Draw { x, y, n: n as u8 }
    } else if c == 0xE && kk == 0x9E {
        Operation::SkipKey { x }
    } else if c == 0xE && kk == 0xA1 {
        Operation::SkipNoKey { x }
    } else if c == 0xF && kk == 0x07 {
        Operation::ReadDelay { x }
    } else if c == 0xF && kk == 0x0A {
        Operation::WaitKey { x }
    } else if c == 0xF && kk == 0x15 {
        Operation::SetDelay { x }
    } else if c == 0xF && kk == 0x18 {
        Operation::SetSound { x }
    } else if c == 0xF && kk == 0x1E {
        Operation::AddIndex { x }
    } else if c == 0xF && kk == 0x29 {
        Operation::FontGlyph { x }
    } else if c == 0xF && kk == 0x33 {
        Operation::Bcd { x }
    } else if c == 0xF && kk == 0x55 {
        Operation::StoreRegs { x }
    } else if c == 0xF && kk == 0x65 {
        Operation::LoadRegs { x }
    } else {
        Operation::Unknown { op }
    }
}


/// The instruction word `c x y n`, one nibble each.
pub open spec fn word(c: u16, x: u16, y: u16, n: u16) -> u16 {
    (c << 12) | (x << 8) | (y << 4) | n
}

/// The instruction word `c x kk`.
pub open spec fn word_xkk(c: u16, x: u8, kk: u8) -> u16 {
    (c << 12) | ((x as u16) << 8) | (kk as u16)
}

/// The instruction word `c nnn`.
pub open spec fn word_addr(c: u16, addr: u16) -> u16 {
    (c << 12) | addr
}

impl Operation {
    /// The instruction word of an operation: the inverse of `spec_decode`.
    pub open spec fn spec_encode(self) -> u16 {
        match self {
            Operation::Sys { addr } => word_addr(0, addr),
            Operation::ClearScreen => 0x00E0,
            Operation::Return => 0x00EE,
            Operation::Jump { addr } => word_addr(1, addr),
            Operation::Call { addr } => word_addr(2, addr),
            Operation::SkipEqImm { x, kk } => word_xkk(3, x, kk),
            Operation::SkipNeImm { x, kk } => word_xkk(4, x, kk),
            Operation::SkipEqReg { x, y } => word(5, x as u16, y as u16, 0),
            Operation::LoadImm { x, kk } => word_xkk(6, x, kk),
            Operation::AddImm { x, kk } => word_xkk(7, x, kk),
            Operation::Copy { x, y } => word(8, x as u16, y as u16, 0),
            Operation::Or { x, y } => word(8, x as u16, y as u16, 1),
            Operation::And { x, y } => word(8, x as u16, y as u16, 2),
            Operation::Xor { x, y } => word(8, x as u16, y as u16, 3),
            Operation::AddReg { x, y } => word(8, x as u16, y as u16, 4),
            Operation::Sub { x, y } => word(8, x as u16, y as u16, 5),
            Operation::ShiftRight { x, y } => word(8, x as u16, y as u16, 6),
            Operation::SubReverse { x, y } => word(8, x as u16, y as u16, 7),
            Operation::ShiftLeft { x, y } => word(8, x as u16, y as u16, 0xE),
            Operation::SkipNeReg { x, y } => word(9, x as u16, y as u16, 0),
            Operation::SetIndex { addr } => word_addr(0xA, addr),
            Operation::JumpOffset { addr } => word_addr(0xB, addr),
            Operation::Random { x, kk } => word_xkk(0xC, x, kk),
            Operation::Draw { x, y, n } => word(0xD, x as u16, y as u16, n as u16),
            Operation::SkipKey { x } => word_xkk(0xE, x, 0x9E),
            Operation::SkipNoKey { x } => word_xkk(0xE, x, 0xA1),
            Operation::ReadDelay { x } => word_xkk(0xF, x, 0x07),
            Operation::WaitKey { x } => word_xkk(0xF, x, 0x0A),
            Operation::SetDelay { x } => word_xkk(0xF, x, 0x15),
            Operation::SetSound { x } => word_xkk(0xF, x, 0x18),
            Operation::AddIndex { x } => word_xkk(0xF, x, 0x1E),
            Operation::FontGlyph { x } => word_xkk(0xF, x, 0x29),
            Operation::Bcd { x } => word_xkk(0xF, x, 0x33),
            Operation::StoreRegs { x } => word_xkk(0xF, x, 0x55),
            Operation::LoadRegs { x } => word_xkk(0xF, x, 0x65),
            Operation::Unknown { op } => op,
        }
    }

    /// Every field fits its instruction field, and the operation is the one
    /// that its word decodes to: a `Sys` address is neither 0E0 nor 0EE, and an
    /// `Unknown` word matches no pattern.
    pub open spec fn wf(self) -> bool {
        match self {
            Operation::Sys { addr } => addr < 0x1000 && addr != 0x00E0 && addr != 0x00EE,
            Operation::ClearScreen => true,
            Operation::Return => true,
            Operation::Jump { addr } => addr < 0x1000,
            Operation::Call { addr } => addr < 0x1000,
            Operation::SkipEqImm { x, kk } => x < 16,
            Operation::SkipNeImm { x, kk } => x < 16,
            Operation::SkipEqReg { x, y } => x < 16 && y < 16,
            Operation::LoadImm { x, kk } => x < 16,
            Operation::AddImm { x, kk } => x < 16,
            Operation::Copy { x, y } => x < 16 && y < 16,
            Operation::Or { x, y } => x < 16 && y < 16,
            Operation::And { x, y } => x < 16 && y < 16,
            Operation::Xor { x, y } => x < 16 && y < 16,
            Operation::AddReg { x, y } => x < 16 && y < 16,
            Operation::Sub { x, y } => x < 16 && y < 16,
            Operation::ShiftRight { x, y } => x < 16 && y < 16,
            Operation::SubReverse { x, y } => x < 16 && y < 16,
            Operation::ShiftLeft { x, y } => x < 16 && y < 16,
            Operation::SkipNeReg { x, y } => x < 16 && y < 16,
            Operation::SetIndex { addr } => addr < 0x1000,
            Operation::JumpOffset { addr } => addr < 0x1000,
            Operation::Random { x, kk } => x < 16,
            Operation::Draw { x, y, n } => x < 16 && y < 16 && n < 16,
            Operation::SkipKey { x } => x < 16,
            Operation::SkipNoKey { x } => x < 16,
            Operation::ReadDelay { x } => x < 16,
            Operation::WaitKey { x } => x < 16,
            Operation::SetDelay { x } => x < 16,
            Operation::SetSound { x } => x < 16,
            Operation::AddIndex { x } => x < 16,
            Operation::FontGlyph { x } => x < 16,
            Operation::Bcd { x } => x < 16,
            Operation::StoreRegs { x } => x < 16,
            Operation::LoadRegs { x } => x < 16,
            Operation::Unknown { op } => spec_decode(op) is Unknown,
        }
    }
}

impl Operation {
    /// The instruction word of this operation.
    pub fn encode(&self) -> (r: u16)
        ensures
            r == self.spec_encode(),
    {
        match *self {
            Operation::Sys { addr } => (0u16 << 12) | addr,
            Operation::ClearScreen => 0x00E0,
            Operation::Return => 0x00EE,
            Operation::Jump { addr } => (1u16 << 12) | addr,
            Operation::Call { addr } => (2u16 << 12) | addr,
            Operation::SkipEqImm { x, kk } => (3u16 << 12) | ((x as u16) << 8) | (kk as u16),
            Operation::SkipNeImm { x, kk } => (4u16 << 12) | ((x as u16) << 8) | (kk as u16),
            Operation::SkipEqReg { x, y } => (5u16 << 12) | ((x as u16) << 8) | ((y as u16) << 4) | 0,
            Operation::LoadImm { x, kk } => (6u16 << 12) | ((x as u16) << 8) | (kk as u16),
            Operation::AddImm { x, kk } => (7u16 << 12) | ((x as u16) << 8) | (kk as u16),
            Operation::Copy { x, y } => (8u16 << 12) | ((x as u16) << 8) | ((y as u16) << 4) | 0,
            Operation::Or { x, y } => (8u16 << 12) | ((x as u16) << 8) | ((y as u16) << 4) | 1,
            Operation::And { x, y } => (8u16 << 12) | ((x as u16) << 8) | ((y as u16) << 4) | 2,
            Operation::Xor { x, y } => (8u16 << 12) | ((x as u16) << 8) | ((y as u16) << 4) | 3,
            Operation::AddReg { x, y } => (8u16 << 12) | ((x as u16) << 8) | ((y as u16) << 4) | 4,
            Operation::Sub { x, y } => (8u16 << 12) | ((x as u16) << 8) | ((y as u16) << 4) | 5,
            Operation::ShiftRight { x, y } => (8u16 << 12) | ((x as u16) << 8) | ((y as u16) << 4) | 6,
            Operation::SubReverse { x, y } => (8u16 << 12) | ((x as u16) << 8) | ((y as u16) << 4) | 7,
            Operation::ShiftLeft { x, y } => (8u16 << 12) | ((x as u16) << 8) | ((y as u16) << 4) | 0xE,
            Operation::SkipNeReg { x, y } => (9u16 << 12) | ((x as u16) << 8) | ((y as u16) << 4) | 0,
            Operation::SetIndex { addr } => (0xAu16 << 12) | addr,
            Operation::JumpOffset { addr } => (0xBu16 << 12) | addr,
            Operation::Random { x, kk } => (0xCu16 << 12) | ((x as u16) << 8) | (kk as u16),
            Operation::Draw { x, y, n } => (0xDu16 << 12) | ((x as u16) << 8) | ((y as u16) << 4) | (n as u16),
            Operation::SkipKey { x } => (0xEu16 << 12) | ((x as u16) << 8) | (0x9Eu8 as u16),
            Operation::SkipNoKey { x } => (0xEu16 << 12) | ((x as u16) << 8) | (0xA1u8 as u16),
            Operation::ReadDelay { x } => (0xFu16 << 12) | ((x as u16) << 8) | (0x07u8 as u16),
            Operation::WaitKey { x } => (0xFu16 << 12) | ((x as u16) << 8) | (0x0Au8 as u16),
            Operation::SetDelay { x } => (0xFu16 << 12) | ((x as u16) << 8) | (0x15u8 as u16),
            Operation::SetSound { x } => (0xFu16 << 12) | ((x as u16) << 8) | (0x18u8 as u16),
            Operation::AddIndex { x } => (0xFu16 << 12) | ((x as u16) << 8) | (0x1Eu8 as u16),
            Operation::FontGlyph { x } => (0xFu16 << 12) | ((x as u16) << 8) | (0x29u8 as u16),
            Operation::Bcd { x } => (0xFu16 << 12) | ((x as u16) << 8) | (0x33u8 as u16),
            Operation::StoreRegs { x } => (0xFu16 << 12) | ((x as u16) << 8) | (0x55u8 as u16),
            Operation::LoadRegs { x } => (0xFu16 << 12) | ((x as u16) << 8) | (0x65u8 as u16),
            Operation::Unknown { op } => op,
        }
    }
}

proof fn lemma_fields(op: u16)
    ensures
        op == ((op >> 12) << 12) | (((op >> 8) & 0xF) << 8) | (((op >> 4) & 0xF) << 4) | (op
            & 0xF),
        op == ((op >> 12) << 12) | (((op >> 8) & 0xF) << 8) | (op & 0xFF),
        op == ((op >> 12) << 12) | (op & 0xFFF),
        op >> 12 == 0 ==> op == op & 0xFFF,
        (op >> 8) & 0xF < 16,
        (op >> 4) & 0xF < 16,
        op & 0xF < 16,
        op & 0xFF < 256,
        op & 0xFFF < 0x1000,
        op >> 12 < 16,
{
    assert(op == ((op >> 12) << 12) | (((op >> 8) & 0xF) << 8) | (((op >> 4) & 0xF) << 4) | (op
        & 0xF)) by (bit_vector);
    assert(op == ((op >> 12) << 12) | (((op >> 8) & 0xF) << 8) | (op & 0xFF)) by (bit_vector);
    assert(op == ((op >> 12) << 12) | (op & 0xFFF)) by (bit_vector);
    assert(op >> 12 == 0 ==> op == op & 0xFFF) by (bit_vector);
    assert((op >> 8) & 0xF < 16 && (op >> 4) & 0xF < 16 && op & 0xF < 16) by (bit_vector);
    assert(op & 0xFF < 256 && op & 0xFFF < 0x1000 && op >> 12 < 16) by (bit_vector);
}

proof fn lemma_word(c: u16, x: u16, y: u16, n: u16)
    requires
        c < 16,
        x < 16,
        y < 16,
        n < 16,
    ensures
        class_of(word(c, x, y, n)) == c,
        x_of(word(c, x, y, n)) == x,
        y_of(word(c, x, y, n)) == y,
        n_of(word(c, x, y, n)) == n,
        c != 0 ==> word(c, x, y, n) != 0x00E0 && word(c, x, y, n) != 0x00EE,
{
    assert(((((c << 12) | (x << 8) | (y << 4) | n) >> 12) == c) && ((((c << 12) | (x << 8) | (y
        << 4) | n) >> 8) & 0xF) == x && ((((c << 12) | (x << 8) | (y << 4) | n) >> 4) & 0xF) == y
        && (((c << 12) | (x << 8) | (y << 4) | n) & 0xF) == n) by (bit_vector)
        requires
            c < 16,
            x < 16,
            y < 16,
            n < 16,
    ;
    assert(c != 0 ==> ((c << 12) | (x << 8) | (y << 4) | n) != 0x00E0 && ((c << 12) | (x << 8) | (
    y << 4) | n) != 0x00EE) by (bit_vector)
        requires
            c < 16,
    ;
}

proof fn lemma_word_xkk(c: u16, x: u16, kk: u16)
    requires
        c < 16,
        x < 16,
        kk < 256,
    ensures
        class_of((c << 12) | (x << 8) | kk) == c,
        x_of((c << 12) | (x << 8) | kk) == x,
        kk_of((c << 12) | (x << 8) | kk) == kk,
        n_of((c << 12) | (x << 8) | kk) == kk & 0xF,
        y_of((c << 12) | (x << 8) | kk) == kk >> 4,
        c != 0 ==> (c << 12) | (x << 8) | kk != 0x00E0 && (c << 12) | (x << 8) | kk != 0x00EE,
{
    assert((((c << 12) | (x << 8) | kk) >> 12) == c && ((((c << 12) | (x << 8) | kk) >> 8) & 0xF)
        == x && (((c << 12) | (x << 8) | kk) & 0xFF) == kk && (((c << 12) | (x << 8) | kk) & 0xF)
        == kk & 0xF && ((((c << 12) | (x << 8) | kk) >> 4) & 0xF) == kk >> 4) by (bit_vector)
        requires
            c < 16,
            x < 16,
            kk < 256,
    ;
    assert(c != 0 ==> (c << 12) | (x << 8) | kk != 0x00E0 && (c << 12) | (x << 8) | kk != 0x00EE)
        by (bit_vector)
        requires
            c < 16,
    ;
}

proof fn lemma_word_addr(c: u16, a: u16)
    requires
        c < 16,
        a < 0x1000,
    ensures
        class_of(word_addr(c, a)) == c,
        addr_of(word_addr(c, a)) == a,
        c == 0 ==> word_addr(c, a) == a,
        c != 0 ==> word_addr(c, a) != 0x00E0 && word_addr(c, a) != 0x00EE,
{
    assert((((c << 12) | a) >> 12) == c && (((c << 12) | a) & 0xFFF) == a) by (bit_vector)
        requires
            c < 16,
            a < 0x1000,
    ;
    assert(c == 0 ==> (c << 12) | a == a) by (bit_vector);
    assert(c != 0 ==> (c << 12) | a != 0x00E0 && (c << 12) | a != 0x00EE) by (bit_vector)
        requires
            c < 16,
    ;
}

/// Re-encoding the decoded operation of any 16-bit word gives back that word:
/// decoding loses no operand bits.
pub proof fn lemma_encode_decode(op: u16)
    ensures
        spec_decode(op).spec_encode() == op,
        spec_decode(op).wf(),
{
    lemma_fields(op);
}

/// Decoding the word of a well-formed operation gives back that operation. So
/// no two distinct operations share a word: the dispatch patterns do not
/// overlap.
pub proof fn lemma_decode_encode(o: Operation)
    requires
        o.wf(),
    ensures
        spec_decode(o.spec_encode()) == o,
{
    match o {
        Operation::Sys { addr } => lemma_word_addr(0, addr),
        Operation::Jump { addr } => lemma_word_addr(1, addr),
        Operation::Call { addr } => lemma_word_addr(2, addr),
        Operation::SetIndex { addr } => lemma_word_addr(0xA, addr),
        Operation::JumpOffset { addr } => lemma_word_addr(0xB, addr),
        Operation::SkipEqImm { x, kk } => lemma_word_xkk(3, x as u16, kk as u16),
        Operation::SkipNeImm { x, kk } => lemma_word_xkk(4, x as u16, kk as u16),
        Operation::LoadImm { x, kk } => lemma_word_xkk(6, x as u16, kk as u16),
        Operation::AddImm { x, kk } => lemma_word_xkk(7, x as u16, kk as u16),
        Operation::Random { x, kk } => lemma_word_xkk(0xC, x as u16, kk as u16),
        Operation::SkipKey { x } => lemma_word_xkk(0xE, x as u16, 0x9E),
        Operation::SkipNoKey { x } => lemma_word_xkk(0xE, x as u16, 0xA1),
        Operation::ReadDelay { x } => lemma_word_xkk(0xF, x as u16, 0x07),
        Operation::WaitKey { x } => lemma_word_xkk(0xF, x as u16, 0x0A),
        Operation::SetDelay { x } => lemma_word_xkk(0xF, x as u16, 0x15),
        Operation::SetSound { x } => lemma_word_xkk(0xF, x as u16, 0x18),
        Operation::AddIndex { x } => lemma_word_xkk(0xF, x as u16, 0x1E),
        Operation::FontGlyph { x } => lemma_word_xkk(0xF, x as u16, 0x29),
        Operation::Bcd { x } => lemma_word_xkk(0xF, x as u16, 0x33),
        Operation::StoreRegs { x } => lemma_word_xkk(0xF, x as u16, 0x55),
        Operation::LoadRegs { x } => lemma_word_xkk(0xF, x as u16, 0x65),
        Operation::SkipEqReg { x, y } => lemma_word(5, x as u16, y as u16, 0),
        Operation::Copy { x, y } => lemma_word(8, x as u16, y as u16, 0),
        Operation::Or { x, y } => lemma_word(8, x as u16, y as u16, 1),
        Operation::And { x, y } => lemma_word(8, x as u16, y as u16, 2),
        Operation::Xor { x, y } => lemma_word(8, x as u16, y as u16, 3),
        Operation::AddReg { x, y } => lemma_word(8, x as u16, y as u16, 4),
        Operation::Sub { x, y } => lemma_word(8, x as u16, y as u16, 5),
        Operation::ShiftRight { x, y } => lemma_word(8, x as u16, y as u16, 6),
        Operation::SubReverse { x, y } => lemma_word(8, x as u16, y as u16, 7),
        Operation::ShiftLeft { x, y } => lemma_word(8, x as u16, y as u16, 0xE),
        Operation::SkipNeReg { x, y } => lemma_word(9, x as u16, y as u16, 0),
        Operation::Draw { x, y, n } => lemma_word(0xD, x as u16, y as u16, n as u16),
        _ => {},
    }
}

} // verus!
