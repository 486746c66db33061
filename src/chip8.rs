//! The interpreter: machine state, the semantics of each operation, the timer
//! unit and the tick driver.

use vstd::prelude::*;
use std::time::{Duration, Instant};
use bit_vec::BitVec;
use crate::font::{font_glyphs, font_set, FONT_BYTES, GLYPH_BYTES};
use crate::opcode::{decode, spec_decode, Operation};

verus! {

pub const CHIP8_WIDTH: usize = 64;
pub const CHIP8_HEIGHT: usize = 32;
/// Addressable memory in bytes.
pub const MEMORY_SIZE: usize = 4096;
/// Where programs are loaded and execution starts.
pub const MEMORY_START: usize = 0x0200;
/// Deepest nesting of subroutine calls.
pub const STACK_LIMIT: usize = 16;
/// Number of keys, and of general registers.
pub const KEY_COUNT: usize = 16;
/// Milliseconds between two timer advances (about 60 Hz).
pub const TIMER_INTERVAL_MS: u128 = 17;
/// Milliseconds between two instruction steps.
pub const STEP_INTERVAL_MS: u128 = 2;
/// Index of the flag register VF.
pub const FLAG: usize = 0xF;

#[verifier::external_type_specification]
#[verifier::external_body]
pub struct ExInstant(std::time::Instant);

/// Relies on `Instant::now`: a reading of the monotonic clock. Nothing is
/// known of its value.
#[verifier::external_body]
fn now() -> Instant {
    Instant::now()
}

/// Relies on `Instant::elapsed`: the time passed since `t`. Nothing is known
/// of its value.
#[verifier::external_body]
fn elapsed(t: &Instant) -> Duration {
    t.elapsed()
}

/// Relies on `Duration::as_millis`: the whole milliseconds in `d`.
#[verifier::external_body]
fn whole_millis(d: &Duration) -> u128 {
    d.as_millis()
}

/// Relies on `rand::random::<u8>`: a uniformly drawn byte. Nothing is known of
/// its value.
#[verifier::external_body]
fn random_byte() -> u8 {
    rand::random::<u8>()
}

/// Pixel `col` of a sprite row, the leftmost pixel being the most significant
/// bit.
pub open spec fn sprite_bit(row: u8, col: int) -> bool {
    (row >> ((7 - col) as u8)) & 1 == 1
}

/// Relies on `BitVec::from_bytes` and indexing: bit `col` of the vector made
/// from one byte is bit `7 - col` of that byte.
#[verifier::external_body]
fn pixel_of(row: u8, col: usize) -> (r: bool)
    requires
        col < 8,
    ensures
        r == sprite_bit(row, col as int),
{
    BitVec::from_bytes(&[row])[col]
}

/// What the program counter does after an operation.
#[derive(Clone, Copy, Debug, PartialEq, Eq, Structural)]
pub enum ProgramCounterAction {
    /// Go to the next instruction (+2).
    Increment,
    /// Skip the next instruction (+4).
    Skip,
    /// Go to the given address.
    Jump(u16),
}

/// A fatal condition of the running program, reported to the host.
#[derive(Clone, Copy, Debug, PartialEq, Eq, Structural)]
pub enum Chip8Error {
    /// Return with an empty call stack.
    StackUnderflow,
    /// Call with a full call stack.
    StackOverflow,
    /// The program counter does not address a whole instruction in memory.
    ProgramCounterOutOfRange { pc: u16 },
    /// An operation would read or write memory past its end, starting at `index`.
    MemoryOutOfRange { index: u16 },
    /// A key operation names a key above F.
    KeyOutOfRange { key: u8 },
}

/// The state of a machine as mathematical values.
pub struct Chip8View {
    /// Rows of pixels, `screen[y][x]`.
    pub screen: Seq<Seq<bool>>,
    /// Whether the last tick cleared or drew on the screen.
    pub screen_changed: bool,
    /// The key snapshot of the last tick.
    pub keys: Seq<bool>,
    /// Whether execution waits for a key press.
    pub waiting: bool,
    /// The register that receives the awaited key.
    pub key_register: int,
    pub memory: Seq<u8>,
    /// Registers V0 to VF.
    pub v: Seq<u8>,
    /// The index register I.
    pub i: u16,
    pub delay: u8,
    pub sound: u8,
    pub pc: u16,
    /// Return addresses, the most recent last.
    pub stack: Seq<u16>,
}

/// The result of one tick, for the host: the screen, whether this tick changed
/// it, and whether the sound should play.
pub struct TickResult<'a> {
    pub screen_buffer: &'a [[bool; CHIP8_WIDTH]; CHIP8_HEIGHT],
    pub screen_changed: bool,
    pub play_sound: bool,
}

pub struct Chip8 {
    screen_buffer: [[bool; CHIP8_WIDTH]; CHIP8_HEIGHT],
    screen_changed: bool,
    input: [bool; KEY_COUNT],
    wait_for_input: bool,
    input_register: usize,
    last_tick: Instant,
    last_timer_tick: Instant,
    memory: [u8; MEMORY_SIZE],
    v: [u8; KEY_COUNT],
    i: u16,
    delay_timer: u8,
    sound_timer: u8,
    program_counter: u16,
    stack: Vec<u16>,
}

impl View for Chip8 {
    type V = Chip8View;

    closed spec fn view(&self) -> Chip8View {
        Chip8View {
            screen: screen_view(self.screen_buffer),
            screen_changed: self.screen_changed,
            keys: self.input@,
            waiting: self.wait_for_input,
            key_register: self.input_register as int,
            memory: self.memory@,
            v: self.v@,
            i: self.i,
            delay: self.delay_timer,
            sound: self.sound_timer,
            pc: self.program_counter,
            stack: self.stack@,
        }
    }
}

impl Chip8View {
    /// Sizes are those of the machine, the stack is within its limit and the
    /// key register names a register.
    pub open spec fn wf(self) -> bool {
        &&& self.screen.len() == CHIP8_HEIGHT
        &&& forall|r: int| 0 <= r < CHIP8_HEIGHT ==> #[trigger] self.screen[r].len() == CHIP8_WIDTH
        &&& self.keys.len() == KEY_COUNT
        &&& 0 <= self.key_register < KEY_COUNT
        &&& self.memory.len() == MEMORY_SIZE
        &&& self.v.len() == KEY_COUNT
        &&& self.stack.len() <= STACK_LIMIT
    }

    /// The same state with register `x` set to `val`.
    pub open spec fn set_v(self, x: int, val: u8) -> Chip8View {
        Chip8View { v: self.v.update(x, val), ..self }
    }
}

/// An all-false screen.
pub open spec fn blank_screen() -> Seq<Seq<bool>> {
    Seq::new(CHIP8_HEIGHT as nat, |r: int| Seq::new(CHIP8_WIDTH as nat, |c: int| false))
}

/// The state of a new machine.
pub open spec fn initial_state() -> Chip8View {
    Chip8View {
        screen: blank_screen(),
        screen_changed: false,
        keys: Seq::new(KEY_COUNT as nat, |k: int| false),
        waiting: false,
        key_register: 0,
        memory: Seq::new(MEMORY_SIZE as nat, |a: int| 0u8),
        v: Seq::new(KEY_COUNT as nat, |k: int| 0u8),
        i: 0,
        delay: 0,
        sound: 0,
        pc: MEMORY_START as u16,
        stack: Seq::empty(),
    }
}

/// Memory after loading: the font from address 0, the program from
/// `MEMORY_START`, every other byte as it was.
pub open spec fn loaded_memory(mem: Seq<u8>, rom: Seq<u8>) -> Seq<u8> {
    Seq::new(
        mem.len(),
        |a: int|
            if a < FONT_BYTES {
                font_glyphs()[a]
            } else if MEMORY_START <= a < MEMORY_START + rom.len() {
                rom[a - MEMORY_START]
            } else {
                mem[a]
            },
    )
}
/// A screen array as rows of pixels.
pub open spec fn screen_view(a: [[bool; CHIP8_WIDTH]; CHIP8_HEIGHT]) -> Seq<Seq<bool>> {
    a@.map_values(|row: [bool; CHIP8_WIDTH]| row@)
}

/// Whether a draw that has done all sprite rows before `line`, and the
/// columns before `col` of row `line`, has reached pixel (`c`, `r`).
spec fn drawn_before(vx: u8, vy: u8, r: int, c: int, line: int, col: int) -> bool {
    let l = (r - vy) % (CHIP8_HEIGHT as int);
    let k = (c - vx) % (CHIP8_WIDTH as int);
    l < line || (l == line && k < col)
}

/// The screen part way through a draw.
spec fn partial_screen(s: Chip8View, vx: u8, vy: u8, n: int, line: int, col: int) -> Seq<Seq<bool>> {
    Seq::new(
        CHIP8_HEIGHT as nat,
        |r: int|
            Seq::new(
                CHIP8_WIDTH as nat,
                |c: int|
                    s.screen[r][c] != (sprite_covers(s, vx, vy, n, r, c) && drawn_before(vx, vy, r, c, line, col)),
            ),
    )
}

/// Whether a set pixel has been turned off part way through a draw.
spec fn partial_collides(s: Chip8View, vx: u8, vy: u8, n: int, line: int, col: int) -> bool {
    exists|r: int, c: int|
        0 <= r < CHIP8_HEIGHT && 0 <= c < CHIP8_WIDTH && s.screen[r][c] && sprite_covers(s, vx, vy, n, r, c)
            && #[trigger] drawn_before(vx, vy, r, c, line, col)
}

/// Position `off` after `base`, wrapped modulo `m`, is the one position in
/// range whose offset from `base` is `off`.
proof fn lemma_wrap(base: int, off: int, m: int, q: int)
    requires
        0 <= base,
        0 <= off < m,
        m > 0,
    ensures
        ((base + off) % m - base) % m == off,
        0 <= q < m && (q - base) % m == off ==> q == (base + off) % m,
{
    assert(((base + off) % m - base) % m == off) by (nonlinear_arith)
        requires
            0 <= base,
            0 <= off < m,
            m > 0,
    {
        vstd::arithmetic::div_mod::lemma_fundamental_div_mod(base + off, m);
        vstd::arithmetic::div_mod::lemma_mod_multiples_vanish(-((base + off) / m), off, m);
        vstd::arithmetic::div_mod::lemma_small_mod(off as nat, m as nat);
    }
    if 0 <= q < m && (q - base) % m == off {
        let d1 = (q - base) / m;
        let d2 = (base + off) / m;
        let p = (base + off) % m;
        vstd::arithmetic::div_mod::lemma_fundamental_div_mod(q - base, m);
        vstd::arithmetic::div_mod::lemma_fundamental_div_mod(base + off, m);
        vstd::arithmetic::div_mod::lemma_mod_pos_bound(base + off, m);
        assert(q - p == m * d1 + m * d2);
        assert(m * d1 + m * d2 == m * (d1 + d2)) by (nonlinear_arith);
        if d1 + d2 > 0 {
            assert(m * (d1 + d2) >= m) by (nonlinear_arith)
                requires
                    m > 0,
                    d1 + d2 >= 1,
            ;
        } else if d1 + d2 < 0 {
            assert(m * (d1 + d2) <= -m) by (nonlinear_arith)
                requires
                    m > 0,
                    d1 + d2 <= -1,
            ;
        }
    }
}

/// A successful operation on a well-formed state leaves it well formed.
proof fn lemma_execute_wf(s: Chip8View, op: Operation, rnd: u8)
    requires
        s.wf(),
        op.wf(),
    ensures
        execute_spec(s, op, rnd) is Ok ==> execute_spec(s, op, rnd)->Ok_0.0.wf(),
{
    match op {
        Operation::Draw { x, y, n } => {
            let t = drawn_screen(s, s.v[x as int], s.v[y as int], n as int);
            assert forall|r: int| 0 <= r < CHIP8_HEIGHT implies #[trigger] t[r].len() == CHIP8_WIDTH by {}
        },
        Operation::ClearScreen => {
            assert forall|r: int| 0 <= r < CHIP8_HEIGHT implies #[trigger] blank_screen()[r].len() == CHIP8_WIDTH by {}
        },
        _ => {},
    }
}

/// The instruction word at the program counter, high byte first.
pub open spec fn fetch(s: Chip8View) -> u16 {
    ((s.memory[s.pc as int] as u16) << 8) | (s.memory[s.pc as int + 1] as u16)
}

pub open spec fn skip_if(c: bool) -> ProgramCounterAction {
    if c {
        ProgramCounterAction::Skip
    } else {
        ProgramCounterAction::Increment
    }
}

/// The program counter after an action.
pub open spec fn next_pc(pc: u16, a: ProgramCounterAction) -> u16 {
    match a {
        ProgramCounterAction::Increment => (pc + 2) as u16,
        ProgramCounterAction::Skip => (pc + 4) as u16,
        ProgramCounterAction::Jump(t) => t,
    }
}

pub open spec fn flag(b: bool) -> u8 {
    if b {
        1
    } else {
        0
    }
}

/// Whether the sprite of `n` rows at I, drawn at (`vx`, `vy`) with wraparound,
/// covers pixel (`c`, `r`) with a set bit. Rows and columns of a sprite never
/// wrap onto themselves (at most 15 rows and 8 columns), so each pixel is
/// covered by at most one sprite bit: that of sprite row `(r - vy) mod 32` and
/// column `(c - vx) mod 64`.
pub open spec fn sprite_covers(s: Chip8View, vx: u8, vy: u8, n: int, r: int, c: int) -> bool {
    let line = (r - vy) % (CHIP8_HEIGHT as int);
    let col = (c - vx) % (CHIP8_WIDTH as int);
    line < n && col < 8 && sprite_bit(s.memory[s.i + line], col)
}

/// The screen after XOR-drawing the sprite.
pub open spec fn drawn_screen(s: Chip8View, vx: u8, vy: u8, n: int) -> Seq<Seq<bool>> {
    Seq::new(
        CHIP8_HEIGHT as nat,
        |r: int|
            Seq::new(CHIP8_WIDTH as nat, |c: int| s.screen[r][c] != sprite_covers(s, vx, vy, n, r, c)),
    )
}

/// Whether drawing the sprite turns some set pixel off.
pub open spec fn draw_collides(s: Chip8View, vx: u8, vy: u8, n: int) -> bool {
    exists|r: int, c: int|
        0 <= r < CHIP8_HEIGHT && 0 <= c < CHIP8_WIDTH && s.screen[r][c] && #[trigger] sprite_covers(
            s,
            vx,
            vy,
            n,
            r,
            c,
        )
}

/// Memory after storing registers V0 to V(x-1) from address `i` on.
pub open spec fn stored_memory(mem: Seq<u8>, v: Seq<u8>, i: int, x: int) -> Seq<u8> {
    Seq::new(mem.len(), |a: int| if i <= a < i + x { v[a - i] } else { mem[a] })
}

/// Registers after loading V0 to V(x-1) from address `i` on.
pub open spec fn loaded_registers(mem: Seq<u8>, v: Seq<u8>, i: int, x: int) -> Seq<u8> {
    Seq::new(v.len(), |k: int| if k < x { mem[i + k] } else { v[k] })
}

/// Memory after writing the decimal digits of `val` to `i`, `i + 1`, `i + 2`.
pub open spec fn bcd_memory(mem: Seq<u8>, i: int, val: u8) -> Seq<u8> {
    mem.update(i, val / 100).update(i + 1, (val % 100) / 10).update(i + 2, val % 10)
}

/// The effect of one operation: the new state (program counter untouched) and
/// the program-counter action, or the error, in which case nothing changes.
/// `rnd` is the random byte that `Random` uses.
pub open spec fn execute_spec(s: Chip8View, op: Operation, rnd: u8) -> Result<
    (Chip8View, ProgramCounterAction),
    Chip8Error,
> {
    let inc = ProgramCounterAction::Increment;
    match op {
        Operation::Sys { addr } => Ok((s, inc)),
        Operation::ClearScreen => Ok((Chip8View { screen: blank_screen(), screen_changed: true, ..s }, inc)),
        Operation::Return => if s.stack.len() == 0 {
            Err(Chip8Error::StackUnderflow)
        } else {
            Ok((Chip8View { stack: s.stack.drop_last(), ..s }, ProgramCounterAction::Jump(s.stack.last())))
        },
        Operation::Jump { addr } => Ok((s, ProgramCounterAction::Jump(addr))),
        Operation::Call { addr } => if s.stack.len() >= STACK_LIMIT {
            Err(Chip8Error::StackOverflow)
        } else {
            Ok((Chip8View { stack: s.stack.push((s.pc + 2) as u16), ..s }, ProgramCounterAction::Jump(addr)))
        },
        Operation::SkipEqImm { x, kk } => Ok((s, skip_if(s.v[x as int] == kk))),
        Operation::SkipNeImm { x, kk } => Ok((s, skip_if(s.v[x as int] != kk))),
        Operation::SkipEqReg { x, y } => Ok((s, skip_if(s.v[x as int] == s.v[y as int]))),
        Operation::LoadImm { x, kk } => Ok((s.set_v(x as int, kk), inc)),
        Operation::AddImm { x, kk } => Ok((s.set_v(x as int, ((s.v[x as int] + kk) % 256) as u8), inc)),
        Operation::Copy { x, y } => Ok((s.set_v(x as int, s.v[y as int]), inc)),
        Operation::Or { x, y } => Ok((s.set_v(x as int, s.v[x as int] | s.v[y as int]), inc)),
        Operation::And { x, y } => Ok((s.set_v(x as int, s.v[x as int] & s.v[y as int]), inc)),
        Operation::Xor { x, y } => Ok((s.set_v(x as int, s.v[x as int] ^ s.v[y as int]), inc)),
        Operation::AddReg { x, y } => {
            let sum = s.v[x as int] + s.v[y as int];
            Ok((s.set_v(FLAG as int, flag(sum > 255)).set_v(x as int, (sum % 256) as u8), inc))
        },
        Operation::Sub { x, y } => if s.v[x as int] > s.v[y as int] {
            Ok((s.set_v(x as int, (s.v[x as int] - s.v[y as int]) as u8).set_v(FLAG as int, 1), inc))
        } else {
            Ok((s.set_v(x as int, 0).set_v(FLAG as int, 0), inc))
        },
        Operation::ShiftRight { x, y } => Ok((s.set_v(FLAG as int, s.v[x as int] % 2).set_v(x as int, s.v[x as int] / 2), inc)),
        Operation::SubReverse { x, y } => if s.v[x as int] < s.v[y as int] {
            Ok((s.set_v(x as int, (s.v[y as int] - s.v[x as int]) as u8).set_v(FLAG as int, 1), inc))
        } else {
            Ok((s.set_v(x as int, 0).set_v(FLAG as int, 0), inc))
        },
        Operation::ShiftLeft { x, y } => Ok((s.set_v(FLAG as int, s.v[x as int] / 128).set_v(x as int, ((s.v[x as int] * 2) % 256) as u8), inc)),
        Operation::SkipNeReg { x, y } => Ok((s, skip_if(s.v[x as int] != s.v[y as int]))),
        Operation::SetIndex { addr } => Ok((Chip8View { i: addr, ..s }, inc)),
        Operation::JumpOffset { addr } => Ok((s, ProgramCounterAction::Jump((addr + s.v[0]) as u16))),
        Operation::Random { x, kk } => Ok((s.set_v(x as int, rnd & kk), inc)),
        Operation::Draw { x, y, n } => if s.i + n > MEMORY_SIZE {
            Err(Chip8Error::MemoryOutOfRange { index: s.i })
        } else {
            let vx = s.v[x as int];
            let vy = s.v[y as int];
            Ok((Chip8View { screen: drawn_screen(s, vx, vy, n as int), screen_changed: true, ..s }.set_v(
                FLAG as int,
                flag(draw_collides(s, vx, vy, n as int)),
            ), inc))
        },
        Operation::SkipKey { x } => if s.v[x as int] >= KEY_COUNT {
            Err(Chip8Error::KeyOutOfRange { key: s.v[x as int] })
        } else {
            Ok((s, skip_if(s.keys[s.v[x as int] as int])))
        },
        Operation::SkipNoKey { x } => if s.v[x as int] >= KEY_COUNT {
            Err(Chip8Error::KeyOutOfRange { key: s.v[x as int] })
        } else {
            Ok((s, skip_if(!s.keys[s.v[x as int] as int])))
        },
        Operation::ReadDelay { x } => Ok((s.set_v(x as int, s.delay), inc)),
        Operation::WaitKey { x } => Ok((Chip8View { waiting: true, key_register: x as int, ..s }, inc)),
        Operation::SetDelay { x } => Ok((Chip8View { delay: s.v[x as int], ..s }, inc)),
        Operation::SetSound { x } => Ok((Chip8View { sound: s.v[x as int], ..s }, inc)),
        Operation::AddIndex { x } => {
            let i = ((s.i + s.v[x as int]) % 0x10000) as u16;
            Ok((Chip8View { i, ..s }.set_v(FLAG as int, flag(i > 0x0F00)), inc))
        },
        Operation::FontGlyph { x } => Ok((Chip8View { i: (s.v[x as int] * GLYPH_BYTES) as u16, ..s }, inc)),
        Operation::Bcd { x } => if s.i + 3 > MEMORY_SIZE {
            Err(Chip8Error::MemoryOutOfRange { index: s.i })
        } else {
            Ok((Chip8View { memory: bcd_memory(s.memory, s.i as int, s.v[x as int]), ..s }, inc))
        },
        Operation::StoreRegs { x } => if s.i + x > MEMORY_SIZE {
            Err(Chip8Error::MemoryOutOfRange { index: s.i })
        } else {
            Ok((Chip8View { memory: stored_memory(s.memory, s.v, s.i as int, x as int), ..s }, inc))
        },
        Operation::LoadRegs { x } => if s.i + x > MEMORY_SIZE {
            Err(Chip8Error::MemoryOutOfRange { index: s.i })
        } else {
            Ok((Chip8View { v: loaded_registers(s.memory, s.v, s.i as int, x as int), ..s }, inc))
        },
        Operation::Unknown { op } => Ok((s, inc)),
    }
}

/// One fetch-decode-execute step, with the program counter moved by the
/// operation's action.
pub open spec fn step_spec(s: Chip8View, rnd: u8) -> Result<Chip8View, Chip8Error> {
    if s.pc + 1 >= MEMORY_SIZE {
        Err(Chip8Error::ProgramCounterOutOfRange { pc: s.pc })
    } else {
        match execute_spec(s, spec_decode(fetch(s)), rnd) {
            Ok((t, a)) => Ok(Chip8View { pc: next_pc(s.pc, a), ..t }),
            Err(e) => Err(e),
        }
    }
}

/// Both timers one count nearer to zero, never below it.
pub open spec fn timers_advanced(s: Chip8View) -> Chip8View {
    Chip8View {
        delay: if s.delay > 0 { (s.delay - 1) as u8 } else { 0 },
        sound: if s.sound > 0 { (s.sound - 1) as u8 } else { 0 },
        ..s
    }
}

/// The lowest key index from `k` on that is pressed in `now` and was not in
/// `before`.
pub open spec fn first_new_key(before: Seq<bool>, now: Seq<bool>, k: int) -> Option<int>
    decreases KEY_COUNT - k,
{
    if k >= KEY_COUNT || k < 0 {
        None
    } else if now[k] && !before[k] {
        Some(k)
    } else {
        first_new_key(before, now, k + 1)
    }
}

/// One tick: the key snapshot is latched and the dirty flag reset; the timers
/// advance if `timer_due`; then, while waiting for a key, the first newly
/// pressed key (if any) is written to the key register and the wait ends;
/// otherwise one step runs if `step_due`. On an error the state is the one
/// before the step.
pub open spec fn tick_spec(s: Chip8View, keys: Seq<bool>, timer_due: bool, step_due: bool, rnd: u8) -> (
    Chip8View,
    Result<(), Chip8Error>,
) {
    let t = if timer_due {
        timers_advanced(s)
    } else {
        s
    };
    let t = Chip8View { keys, screen_changed: false, ..t };
    if s.waiting {
        match first_new_key(s.keys, keys, 0) {
            Some(k) => (Chip8View { waiting: false, key_register: 0, ..t.set_v(t.key_register, k as u8) }, Ok(())),
            None => (t, Ok(())),
        }
    } else if step_due {
        match step_spec(t, rnd) {
            Ok(u) => (u, Ok(())),
            Err(e) => (t, Err(e)),
        }
    } else {
        (t, Ok(()))
    }
}

/// Relates the state before and after an operation that may fail, and its
/// result, to the operation's effect: on an error nothing changes.
pub open spec fn outcome(
    pre: Chip8View,
    post: Chip8View,
    r: Result<ProgramCounterAction, Chip8Error>,
    effect: Result<(Chip8View, ProgramCounterAction), Chip8Error>,
) -> bool {
    match effect {
        Ok((t, a)) => r == Ok::<ProgramCounterAction, Chip8Error>(a) && post == t,
        Err(e) => r == Err::<ProgramCounterAction, Chip8Error>(e) && post == pre,
    }
}

impl Chip8 {
    /// The machine's state is well formed.
    pub open spec fn wf(&self) -> bool {
        self@.wf()
    }

    /// A machine with zeroed memory, registers and timers, a blank screen, an
    /// empty stack and the program counter at `MEMORY_START`.
    pub fn new() -> (r: Chip8)
        ensures
            r@ == initial_state(),
            r.wf(),
    {
        let r = Chip8 {
            screen_buffer: [[false; CHIP8_WIDTH]; CHIP8_HEIGHT],
            screen_changed: false,
            wait_for_input: false,
            input: [false; KEY_COUNT],
            input_register: 0,
            last_tick: now(),
            last_timer_tick: now(),
            memory: [0; MEMORY_SIZE],
            v: [0; KEY_COUNT],
            i: 0,
            delay_timer: 0,
            sound_timer: 0,
            program_counter: MEMORY_START as u16,
            stack: Vec::new(),
        };
        assert(r@.screen =~~= blank_screen());
        assert(r@.keys =~= initial_state().keys);
        assert(r@.memory =~= initial_state().memory);
        assert(r@.v =~= initial_state().v);
        assert(r@.stack =~= initial_state().stack);
        r
    }

    /// Writes the font from address 0 and the program from `MEMORY_START`.
    pub fn load(&mut self, rom: Vec<u8>)
        requires
            old(self).wf(),
            rom@.len() <= MEMORY_SIZE - MEMORY_START,
        ensures
            final(self)@ == (Chip8View { memory: loaded_memory(old(self)@.memory, rom@), ..old(self)@ }),
            final(self).wf(),
    {
        let font = font_set();
        let mut mem = self.memory;
        let mut a: usize = 0;
        while a < FONT_BYTES
            invariant
                a <= FONT_BYTES,
                font@ == font_glyphs(),
                mem@.len() == MEMORY_SIZE,
                forall|k: int|
                    0 <= k < MEMORY_SIZE ==> mem@[k] == if k < a {
                        font_glyphs()[k]
                    } else {
                        old(self).memory@[k]
                    },
            decreases FONT_BYTES - a,
        {
            mem[a] = font[a];
            a = a + 1;
        }
        let mut b: usize = 0;
        while b < rom.len()
            invariant
                b <= rom@.len(),
                rom@.len() <= MEMORY_SIZE - MEMORY_START,
                mem@.len() == MEMORY_SIZE,
                forall|k: int|
                    0 <= k < MEMORY_SIZE ==> mem@[k] == if k < FONT_BYTES {
                        font_glyphs()[k]
                    } else if MEMORY_START <= k < MEMORY_START + b {
                        rom@[k - MEMORY_START]
                    } else {
                        old(self).memory@[k]
                    },
            decreases rom@.len() - b,
        {
            mem[MEMORY_START + b] = rom[b];
            b = b + 1;
        }
        assert(mem@ =~= loaded_memory(old(self)@.memory, rom@));
        self.memory = mem;
    }

    fn op_0nnn(&mut self, addr: u16) -> (r: ProgramCounterAction)
        ensures
            execute_spec(old(self)@, Operation::Sys { addr }, 0) == Ok::<_, Chip8Error>((final(self)@, r)),
    {
        ProgramCounterAction::Increment
    }

    fn op_1nnn(&mut self, addr: u16) -> (r: ProgramCounterAction)
        ensures
            execute_spec(old(self)@, Operation::Jump { addr }, 0) == Ok::<_, Chip8Error>((final(self)@, r)),
    {
        ProgramCounterAction::Jump(addr)
    }

    fn op_3xkk(&mut self, x: usize, byte: u8) -> (r: ProgramCounterAction)
        requires
            old(self).wf(),
            x < KEY_COUNT,
        ensures
            execute_spec(old(self)@, Operation::SkipEqImm { x: x as u8, kk: byte }, 0) == Ok::<_, Chip8Error>((final(self)@, r)),
    {
        if self.v[x] == byte {
            ProgramCounterAction::Skip
        } else {
            ProgramCounterAction::Increment
        }
    }

    fn op_6xkk(&mut self, x: usize, byte: u8) -> (r: ProgramCounterAction)
        requires
            old(self).wf(),
            x < KEY_COUNT,
        ensures
            execute_spec(old(self)@, Operation::LoadImm { x: x as u8, kk: byte }, 0) == Ok::<_, Chip8Error>((final(self)@, r)),
    {
        self.v[x] = byte;
        ProgramCounterAction::Increment
    }

    fn op_00e0(&mut self) -> (r: ProgramCounterAction)
        requires
            old(self).wf(),
        ensures
            execute_spec(old(self)@, Operation::ClearScreen, 0) == Ok::<_, Chip8Error>((final(self)@, r)),
    {
        self.screen_buffer = [[false; CHIP8_WIDTH]; CHIP8_HEIGHT];
        self.screen_changed = true;
        assert(self@.screen =~~= blank_screen());
        ProgramCounterAction::Increment
    }

    fn op_00ee(&mut self) -> (r: Result<ProgramCounterAction, Chip8Error>)
        requires
            old(self).wf(),
        ensures
            outcome(old(self)@, final(self)@, r, execute_spec(old(self)@, Operation::Return, 0)),
    {
        match self.stack.pop() {
            Some(addr) => Ok(ProgramCounterAction::Jump(addr)),
            None => Err(Chip8Error::StackUnderflow),
        }
    }

    fn op_2nnn(&mut self, addr: u16) -> (r: Result<ProgramCounterAction, Chip8Error>)
        requires
            old(self).wf(),
            old(self).program_counter < MEMORY_SIZE,
        ensures
            outcome(old(self)@, final(self)@, r, execute_spec(old(self)@, Operation::Call { addr }, 0)),
    {
        if self.stack.len() >= STACK_LIMIT {
            Err(Chip8Error::StackOverflow)
        } else {
            self.stack.push(self.program_counter + 2);
            Ok(ProgramCounterAction::Jump(addr))
        }
    }

    fn op_4xkk(&mut self, x: usize, byte: u8) -> (r: ProgramCounterAction)
        requires
            old(self).wf(),
            x < KEY_COUNT,
        ensures
            execute_spec(old(self)@, Operation::SkipNeImm { x: x as u8, kk: byte }, 0) == Ok::<_, Chip8Error>((final(self)@, r)),
    {
        if self.v[x] != byte {
            ProgramCounterAction::Skip
        } else {
            ProgramCounterAction::Increment
        }
    }

    fn op_5xy0(&mut self, x: usize, y: usize) -> (r: ProgramCounterAction)
        requires
            old(self).wf(),
            x < KEY_COUNT,
            y < KEY_COUNT,
        ensures
            execute_spec(old(self)@, Operation::SkipEqReg { x: x as u8, y: y as u8 }, 0) == Ok::<_, Chip8Error>((final(self)@, r)),
    {
        if self.v[x] == self.v[y] {
            ProgramCounterAction::Skip
        } else {
            ProgramCounterAction::Increment
        }
    }

    fn op_7xkk(&mut self, x: usize, byte: u8) -> (r: ProgramCounterAction)
        requires
            old(self).wf(),
            x < KEY_COUNT,
        ensures
            execute_spec(old(self)@, Operation::AddImm { x: x as u8, kk: byte }, 0) == Ok::<_, Chip8Error>((final(self)@, r)),
    {
        self.v[x] = ((self.v[x] as u16 + byte as u16) % 256) as u8;
        ProgramCounterAction::Increment
    }

    fn op_8xy0(&mut self, x: usize, y: usize) -> (r: ProgramCounterAction)
        requires
            old(self).wf(),
            x < KEY_COUNT,
            y < KEY_COUNT,
        ensures
            execute_spec(old(self)@, Operation::Copy { x: x as u8, y: y as u8 }, 0) == Ok::<_, Chip8Error>((final(self)@, r)),
    {
        self.v[x] = self.v[y];
        ProgramCounterAction::Increment
    }

    fn op_8xy1(&mut self, x: usize, y: usize) -> (r: ProgramCounterAction)
        requires
            old(self).wf(),
            x < KEY_COUNT,
            y < KEY_COUNT,
        ensures
            execute_spec(old(self)@, Operation::Or { x: x as u8, y: y as u8 }, 0) == Ok::<_, Chip8Error>((final(self)@, r)),
    {
        self.v[x] = self.v[x] | self.v[y];
        ProgramCounterAction::Increment
    }

    fn op_8xy2(&mut self, x: usize, y: usize) -> (r: ProgramCounterAction)
        requires
            old(self).wf(),
            x < KEY_COUNT,
            y < KEY_COUNT,
        ensures
            execute_spec(old(self)@, Operation::And { x: x as u8, y: y as u8 }, 0) == Ok::<_, Chip8Error>((final(self)@, r)),
    {
        self.v[x] = self.v[x] & self.v[y];
        ProgramCounterAction::Increment
    }

    fn op_8xy3(&mut self, x: usize, y: usize) -> (r: ProgramCounterAction)
        requires
            old(self).wf(),
            x < KEY_COUNT,
            y < KEY_COUNT,
        ensures
            execute_spec(old(self)@, Operation::Xor { x: x as u8, y: y as u8 }, 0) == Ok::<_, Chip8Error>((final(self)@, r)),
    {
        self.v[x] = self.v[x] ^ self.v[y];
        ProgramCounterAction::Increment
    }

    fn op_8xy4(&mut self, x: usize, y: usize) -> (r: ProgramCounterAction)
        requires
            old(self).wf(),
            x < KEY_COUNT,
            y < KEY_COUNT,
        ensures
            execute_spec(old(self)@, Operation::AddReg { x: x as u8, y: y as u8 }, 0) == Ok::<_, Chip8Error>((final(self)@, r)),
    {
        let sum: u16 = self.v[x] as u16 + self.v[y] as u16;
        self.v[FLAG] = if sum > 255 { 1 } else { 0 };
        self.v[x] = (sum % 256) as u8;
        ProgramCounterAction::Increment
    }

    fn op_8xy5(&mut self, x: usize, y: usize) -> (r: ProgramCounterAction)
        requires
            old(self).wf(),
            x < KEY_COUNT,
            y < KEY_COUNT,
        ensures
            execute_spec(old(self)@, Operation::Sub { x: x as u8, y: y as u8 }, 0) == Ok::<_, Chip8Error>((final(self)@, r)),
    {
        if self.v[x] > self.v[y] {
            self.v[x] = self.v[x] - self.v[y];
            self.v[FLAG] = 1;
        } else {
            self.v[x] = 0;
            self.v[FLAG] = 0;
        }
        ProgramCounterAction::Increment
    }

    fn op_8xy6(&mut self, x: usize, y: usize) -> (r: ProgramCounterAction)
        requires
            old(self).wf(),
            x < KEY_COUNT,
            y < KEY_COUNT,
        ensures
            execute_spec(old(self)@, Operation::ShiftRight { x: x as u8, y: y as u8 }, 0) == Ok::<_, Chip8Error>((final(self)@, r)),
    {
        let val = self.v[x];
        self.v[FLAG] = val % 2;
        self.v[x] = val / 2;
        ProgramCounterAction::Increment
    }

    fn op_8xy7(&mut self, x: usize, y: usize) -> (r: ProgramCounterAction)
        requires
            old(self).wf(),
            x < KEY_COUNT,
            y < KEY_COUNT,
        ensures
            execute_spec(old(self)@, Operation::SubReverse { x: x as u8, y: y as u8 }, 0) == Ok::<_, Chip8Error>((final(self)@, r)),
    {
        if self.v[x] < self.v[y] {
            self.v[x] = self.v[y] - self.v[x];
            self.v[FLAG] = 1;
        } else {
            self.v[x] = 0;
            self.v[FLAG] = 0;
        }
        ProgramCounterAction::Increment
    }

    fn op_8xye(&mut self, x: usize, y: usize) -> (r: ProgramCounterAction)
        requires
            old(self).wf(),
            x < KEY_COUNT,
            y < KEY_COUNT,
        ensures
            execute_spec(old(self)@, Operation::ShiftLeft { x: x as u8, y: y as u8 }, 0) == Ok::<_, Chip8Error>((final(self)@, r)),
    {
        let val = self.v[x];
        self.v[FLAG] = val / 128;
        self.v[x] = ((val as u16 * 2) % 256) as u8;
        ProgramCounterAction::Increment
    }

    fn op_9xy0(&mut self, x: usize, y: usize) -> (r: ProgramCounterAction)
        requires
            old(self).wf(),
            x < KEY_COUNT,
            y < KEY_COUNT,
        ensures
            execute_spec(old(self)@, Operation::SkipNeReg { x: x as u8, y: y as u8 }, 0) == Ok::<_, Chip8Error>((final(self)@, r)),
    {
        if self.v[x] != self.v[y] {
            ProgramCounterAction::Skip
        } else {
            ProgramCounterAction::Increment
        }
    }

    fn op_annn(&mut self, addr: u16) -> (r: ProgramCounterAction)
        requires
            old(self).wf(),
        ensures
            execute_spec(old(self)@, Operation::SetIndex { addr }, 0) == Ok::<_, Chip8Error>((final(self)@, r)),
    {
        self.i = addr;
        ProgramCounterAction::Increment
    }

    fn op_bnnn(&mut self, addr: u16) -> (r: ProgramCounterAction)
        requires
            old(self).wf(),
            addr < 0x1000,
        ensures
            execute_spec(old(self)@, Operation::JumpOffset { addr }, 0) == Ok::<_, Chip8Error>((final(self)@, r)),
    {
        ProgramCounterAction::Jump(addr + self.v[0] as u16)
    }

    fn op_cxkk(&mut self, x: usize, byte: u8, random: u8) -> (r: ProgramCounterAction)
        requires
            old(self).wf(),
            x < KEY_COUNT,
        ensures
            execute_spec(old(self)@, Operation::Random { x: x as u8, kk: byte }, random) == Ok::<_, Chip8Error>((final(self)@, r)),
    {
        self.v[x] = random & byte;
        ProgramCounterAction::Increment
    }

    fn op_ex9e(&mut self, x: usize) -> (r: Result<ProgramCounterAction, Chip8Error>)
        requires
            old(self).wf(),
            x < KEY_COUNT,
        ensures
            outcome(old(self)@, final(self)@, r, execute_spec(old(self)@, Operation::SkipKey { x: x as u8 }, 0)),
    {
        let key = self.v[x];
        if key as usize >= KEY_COUNT {
            Err(Chip8Error::KeyOutOfRange { key })
        } else if self.input[key as usize] {
            Ok(ProgramCounterAction::Skip)
        } else {
            Ok(ProgramCounterAction::Increment)
        }
    }

    fn op_exa1(&mut self, x: usize) -> (r: Result<ProgramCounterAction, Chip8Error>)
        requires
            old(self).wf(),
            x < KEY_COUNT,
        ensures
            outcome(old(self)@, final(self)@, r, execute_spec(old(self)@, Operation::SkipNoKey { x: x as u8 }, 0)),
    {
        let key = self.v[x];
        if key as usize >= KEY_COUNT {
            Err(Chip8Error::KeyOutOfRange { key })
        } else if !self.input[key as usize] {
            Ok(ProgramCounterAction::Skip)
        } else {
            Ok(ProgramCounterAction::Increment)
        }
    }

    fn op_fx07(&mut self, x: usize) -> (r: ProgramCounterAction)
        requires
            old(self).wf(),
            x < KEY_COUNT,
        ensures
            execute_spec(old(self)@, Operation::ReadDelay { x: x as u8 }, 0) == Ok::<_, Chip8Error>((final(self)@, r)),
    {
        self.v[x] = self.delay_timer;
        ProgramCounterAction::Increment
    }

    fn op_fx0a(&mut self, x: usize) -> (r: ProgramCounterAction)
        requires
            old(self).wf(),
            x < KEY_COUNT,
        ensures
            execute_spec(old(self)@, Operation::WaitKey { x: x as u8 }, 0) == Ok::<_, Chip8Error>((final(self)@, r)),
    {
        self.wait_for_input = true;
        self.input_register = x;
        ProgramCounterAction::Increment
    }

    fn op_fx15(&mut self, x: usize) -> (r: ProgramCounterAction)
        requires
            old(self).wf(),
            x < KEY_COUNT,
        ensures
            execute_spec(old(self)@, Operation::SetDelay { x: x as u8 }, 0) == Ok::<_, Chip8Error>((final(self)@, r)),
    {
        self.delay_timer = self.v[x];
        ProgramCounterAction::Increment
    }

    fn op_fx18(&mut self, x: usize) -> (r: ProgramCounterAction)
        requires
            old(self).wf(),
            x < KEY_COUNT,
        ensures
            execute_spec(old(self)@, Operation::SetSound { x: x as u8 }, 0) == Ok::<_, Chip8Error>((final(self)@, r)),
    {
        self.sound_timer = self.v[x];
        ProgramCounterAction::Increment
    }

    fn op_fx1e(&mut self, x: usize) -> (r: ProgramCounterAction)
        requires
            old(self).wf(),
            x < KEY_COUNT,
        ensures
            execute_spec(old(self)@, Operation::AddIndex { x: x as u8 }, 0) == Ok::<_, Chip8Error>((final(self)@, r)),
    {
        let sum: u32 = self.i as u32 + self.v[x] as u32;
        self.i = (sum % 0x10000) as u16;
        self.v[FLAG] = if self.i > 0x0F00 { 1 } else { 0 };
        ProgramCounterAction::Increment
    }

    fn op_fx29(&mut self, x: usize) -> (r: ProgramCounterAction)
        requires
            old(self).wf(),
            x < KEY_COUNT,
        ensures
            execute_spec(old(self)@, Operation::FontGlyph { x: x as u8 }, 0) == Ok::<_, Chip8Error>((final(self)@, r)),
    {
        self.i = self.v[x] as u16 * GLYPH_BYTES as u16;
        ProgramCounterAction::Increment
    }

    fn op_fx33(&mut self, x: usize) -> (r: Result<ProgramCounterAction, Chip8Error>)
        requires
            old(self).wf(),
            x < KEY_COUNT,
        ensures
            outcome(old(self)@, final(self)@, r, execute_spec(old(self)@, Operation::Bcd { x: x as u8 }, 0)),
    {
        let i = self.i as usize;
        if i + 3 > MEMORY_SIZE {
            return Err(Chip8Error::MemoryOutOfRange { index: self.i });
        }
        let val = self.v[x];
        self.memory[i] = val / 100;
        self.memory[i + 1] = (val % 100) / 10;
        self.memory[i + 2] = val % 10;
        Ok(ProgramCounterAction::Increment)
    }

    fn op_fx55(&mut self, x: usize) -> (r: Result<ProgramCounterAction, Chip8Error>)
        requires
            old(self).wf(),
            x < KEY_COUNT,
        ensures
            outcome(old(self)@, final(self)@, r, execute_spec(old(self)@, Operation::StoreRegs { x: x as u8 }, 0)),
    {
        let i = self.i as usize;
        if i + x > MEMORY_SIZE {
            return Err(Chip8Error::MemoryOutOfRange { index: self.i });
        }
        let mut mem = self.memory;
        let mut offset: usize = 0;
        while offset < x
            invariant
                offset <= x,
                x < KEY_COUNT,
                i + x <= MEMORY_SIZE,
                i == self.i,
                self.v@.len() == KEY_COUNT,
                mem@.len() == MEMORY_SIZE,
                forall|a: int|
                    0 <= a < MEMORY_SIZE ==> mem@[a] == if i <= a < i + offset {
                        self.v@[a - i]
                    } else {
                        self.memory@[a]
                    },
            decreases x - offset,
        {
            mem[i + offset] = self.v[offset];
            offset = offset + 1;
        }
        assert(mem@ =~= stored_memory(self.memory@, self.v@, i as int, x as int));
        self.memory = mem;
        Ok(ProgramCounterAction::Increment)
    }

    fn op_fx65(&mut self, x: usize) -> (r: Result<ProgramCounterAction, Chip8Error>)
        requires
            old(self).wf(),
            x < KEY_COUNT,
        ensures
            outcome(old(self)@, final(self)@, r, execute_spec(old(self)@, Operation::LoadRegs { x: x as u8 }, 0)),
    {
        let i = self.i as usize;
        if i + x > MEMORY_SIZE {
            return Err(Chip8Error::MemoryOutOfRange { index: self.i });
        }
        let mut v = self.v;
        let mut offset: usize = 0;
        while offset < x
            invariant
                offset <= x,
                x < KEY_COUNT,
                i + x <= MEMORY_SIZE,
                i == self.i,
                self.memory@.len() == MEMORY_SIZE,
                v@.len() == KEY_COUNT,
                forall|k: int|
                    0 <= k < KEY_COUNT ==> v@[k] == if k < offset {
                        self.memory@[i + k]
                    } else {
                        self.v@[k]
                    },
            decreases x - offset,
        {
            v[offset] = self.memory[i + offset];
            offset = offset + 1;
        }
        assert(v@ =~= loaded_registers(self.memory@, self.v@, i as int, x as int));
        self.v = v;
        Ok(ProgramCounterAction::Increment)
    }

    fn op_dxyn(&mut self, x: usize, y: usize, nibble: usize) -> (r: Result<ProgramCounterAction, Chip8Error>)
        requires
            old(self).wf(),
            x < KEY_COUNT,
            y < KEY_COUNT,
            nibble < 16,
        ensures
            outcome(
                old(self)@,
                final(self)@,
                r,
                execute_spec(old(self)@, Operation::Draw { x: x as u8, y: y as u8, n: nibble as u8 }, 0),
            ),
    {
        let i = self.i as usize;
        if i + nibble > MEMORY_SIZE {
            return Err(Chip8Error::MemoryOutOfRange { index: self.i });
        }
        let vx = self.v[x];
        let vy = self.v[y];
        let ghost s = self@;
        let ghost n = nibble as int;
        let mut screen = self.screen_buffer;
        let mut deleted = false;
        let mut line: usize = 0;
        assert(screen_view(screen) =~~= partial_screen(s, vx, vy, n, 0, 0));
        while line < nibble
            invariant
                line <= nibble,
                nibble < 16,
                i + nibble <= MEMORY_SIZE,
                s == self@,
                s.wf(),
                i == s.i,
                n == nibble,
                screen_view(screen) == partial_screen(s, vx, vy, n, line as int, 0),
                deleted == partial_collides(s, vx, vy, n, line as int, 0),
            decreases nibble - line,
        {
            let row_byte = self.memory[i + line];
            let py = (vy as usize + line) % CHIP8_HEIGHT;
            proof {
                lemma_wrap(vy as int, line as int, CHIP8_HEIGHT as int, 0);
            }
            let mut col: usize = 0;
            while col < 8
                invariant
                    line < nibble,
                    nibble < 16,
                    col <= 8,
                    s.wf(),
                    i + nibble <= MEMORY_SIZE,
                    i == s.i,
                    n == nibble,
                    row_byte == s.memory[i + line],
                    py == (vy + line) % (CHIP8_HEIGHT as int),
                    ((py - vy) % (CHIP8_HEIGHT as int)) == line,
                    screen_view(screen) == partial_screen(s, vx, vy, n, line as int, col as int),
                    deleted == partial_collides(s, vx, vy, n, line as int, col as int),
                decreases 8 - col,
            {
                let px = (vx as usize + col) % CHIP8_WIDTH;
                proof {
                    lemma_wrap(vx as int, col as int, CHIP8_WIDTH as int, 0);
                }
                let bit = pixel_of(row_byte, col);
                let mut row = screen[py];
                let before = row[px];
                row[px] = before != bit;
                let ghost old_screen = screen;
                screen[py] = row;
                let ghost old_deleted = deleted;
                deleted = deleted || (before && bit);
                proof {
                    let l = line as int;
                    let k = col as int;
                    assert(sprite_covers(s, vx, vy, n, py as int, px as int) == bit);
                    assert(!drawn_before(vx, vy, py as int, px as int, l, k));
                    assert(screen_view(old_screen)[py as int] == old_screen@[py as int]@);
                    assert(screen_view(old_screen)[py as int][px as int] == partial_screen(s, vx, vy, n, l, k)[py as int][px as int]);
                    assert(before == s.screen[py as int][px as int]);
                    assert forall|r: int, c: int|
                        0 <= r < CHIP8_HEIGHT && 0 <= c < CHIP8_WIDTH implies #[trigger] drawn_before(
                            vx,
                            vy,
                            r,
                            c,
                            l,
                            k + 1,
                        ) == (drawn_before(vx, vy, r, c, l, k) || (r == py && c == px)) by {
                        lemma_wrap(vy as int, l, CHIP8_HEIGHT as int, r);
                        lemma_wrap(vx as int, k, CHIP8_WIDTH as int, c);
                    }
                    assert(screen@ == old_screen@.update(py as int, row));
                    assert forall|r: int, c: int| 0 <= r < CHIP8_HEIGHT && 0 <= c < CHIP8_WIDTH implies
                        #[trigger] screen_view(screen)[r][c] == partial_screen(s, vx, vy, n, l, k + 1)[r][c] by {
                        lemma_wrap(vy as int, l, CHIP8_HEIGHT as int, r);
                        lemma_wrap(vx as int, k, CHIP8_WIDTH as int, c);
                        assert(screen_view(old_screen)[r][c] == partial_screen(s, vx, vy, n, l, k)[r][c]);
                    }
                    assert(screen_view(screen) =~~= partial_screen(s, vx, vy, n, l, k + 1));
                    if deleted {
                        if old_deleted {
                            let (r, c) = choose|r: int, c: int|
                                0 <= r < CHIP8_HEIGHT && 0 <= c < CHIP8_WIDTH && s.screen[r][c] && sprite_covers(
                                    s,
                                    vx,
                                    vy,
                                    n,
                                    r,
                                    c,
                                ) && #[trigger] drawn_before(vx, vy, r, c, l, k);
                            assert(drawn_before(vx, vy, r, c, l, k + 1));
                        } else {
                            assert(drawn_before(vx, vy, py as int, px as int, l, k + 1));
                        }
                    } else {
                        if partial_collides(s, vx, vy, n, l, k + 1) {
                            let (r, c) = choose|r: int, c: int|
                                0 <= r < CHIP8_HEIGHT && 0 <= c < CHIP8_WIDTH && s.screen[r][c] && sprite_covers(
                                    s,
                                    vx,
                                    vy,
                                    n,
                                    r,
                                    c,
                                ) && #[trigger] drawn_before(vx, vy, r, c, l, k + 1);
                            assert(drawn_before(vx, vy, r, c, l, k));
                        }
                    }
                }
                col = col + 1;
            }
            proof {
                let l = line as int;
                assert forall|r: int, c: int|
                    0 <= r < CHIP8_HEIGHT && 0 <= c < CHIP8_WIDTH && sprite_covers(s, vx, vy, n, r, c) implies
                        #[trigger] drawn_before(vx, vy, r, c, l, 8) == drawn_before(vx, vy, r, c, l + 1, 0) by {}
                assert(screen_view(screen) =~~= partial_screen(s, vx, vy, n, l + 1, 0));
                if deleted {
                    let (r, c) = choose|r: int, c: int|
                        0 <= r < CHIP8_HEIGHT && 0 <= c < CHIP8_WIDTH && s.screen[r][c] && sprite_covers(
                            s,
                            vx,
                            vy,
                            n,
                            r,
                            c,
                        ) && #[trigger] drawn_before(vx, vy, r, c, l, 8);
                    assert(drawn_before(vx, vy, r, c, l + 1, 0));
                }
                if partial_collides(s, vx, vy, n, l + 1, 0) {
                    let (r, c) = choose|r: int, c: int|
                        0 <= r < CHIP8_HEIGHT && 0 <= c < CHIP8_WIDTH && s.screen[r][c] && sprite_covers(
                            s,
                            vx,
                            vy,
                            n,
                            r,
                            c,
                        ) && #[trigger] drawn_before(vx, vy, r, c, l + 1, 0);
                    assert(drawn_before(vx, vy, r, c, l, 8));
                }
            }
            line = line + 1;
        }
        proof {
            assert(partial_screen(s, vx, vy, n, n, 0) =~~= drawn_screen(s, vx, vy, n));
            if deleted {
                let (r, c) = choose|r: int, c: int|
                    0 <= r < CHIP8_HEIGHT && 0 <= c < CHIP8_WIDTH && s.screen[r][c] && sprite_covers(s, vx, vy, n, r, c)
                        && #[trigger] drawn_before(vx, vy, r, c, n, 0);
                assert(draw_collides(s, vx, vy, n));
            }
            if draw_collides(s, vx, vy, n) {
                let (r, c) = choose|r: int, c: int|
                    0 <= r < CHIP8_HEIGHT && 0 <= c < CHIP8_WIDTH && s.screen[r][c] && #[trigger] sprite_covers(
                        s,
                        vx,
                        vy,
                        n,
                        r,
                        c,
                    );
                assert(drawn_before(vx, vy, r, c, n, 0));
            }
        }
        self.screen_buffer = screen;
        self.screen_changed = true;
        self.v[FLAG] = if deleted { 1 } else { 0 };
        Ok(ProgramCounterAction::Increment)
    }

    /// Fetches the instruction at the program counter and performs it.
    fn execute_operation(&mut self, random: u8) -> (r: Result<ProgramCounterAction, Chip8Error>)
        requires
            old(self).wf(),
            old(self)@.pc + 1 < MEMORY_SIZE,
        ensures
            outcome(old(self)@, final(self)@, r, execute_spec(old(self)@, spec_decode(fetch(old(self)@)), random)),
    {
        let pc = self.program_counter as usize;
        let op: u16 = ((self.memory[pc] as u16) << 8) | (self.memory[pc + 1] as u16);
        match decode(op) {
            Operation::Sys { addr } => Ok(self.op_0nnn(addr)),
            Operation::ClearScreen => Ok(self.op_00e0()),
            Operation::Return => self.op_00ee(),
            Operation::Jump { addr } => Ok(self.op_1nnn(addr)),
            Operation::Call { addr } => self.op_2nnn(addr),
            Operation::SkipEqImm { x, kk } => Ok(self.op_3xkk(x as usize, kk)),
            Operation::SkipNeImm { x, kk } => Ok(self.op_4xkk(x as usize, kk)),
            Operation::SkipEqReg { x, y } => Ok(self.op_5xy0(x as usize, y as usize)),
            Operation::LoadImm { x, kk } => Ok(self.op_6xkk(x as usize, kk)),
            Operation::AddImm { x, kk } => Ok(self.op_7xkk(x as usize, kk)),
            Operation::Copy { x, y } => Ok(self.op_8xy0(x as usize, y as usize)),
            Operation::Or { x, y } => Ok(self.op_8xy1(x as usize, y as usize)),
            Operation::And { x, y } => Ok(self.op_8xy2(x as usize, y as usize)),
            Operation::Xor { x, y } => Ok(self.op_8xy3(x as usize, y as usize)),
            Operation::AddReg { x, y } => Ok(self.op_8xy4(x as usize, y as usize)),
            Operation::Sub { x, y } => Ok(self.op_8xy5(x as usize, y as usize)),
            Operation::ShiftRight { x, y } => Ok(self.op_8xy6(x as usize, y as usize)),
            Operation::SubReverse { x, y } => Ok(self.op_8xy7(x as usize, y as usize)),
            Operation::ShiftLeft { x, y } => Ok(self.op_8xye(x as usize, y as usize)),
            Operation::SkipNeReg { x, y } => Ok(self.op_9xy0(x as usize, y as usize)),
            Operation::SetIndex { addr } => Ok(self.op_annn(addr)),
            Operation::JumpOffset { addr } => Ok(self.op_bnnn(addr)),
            Operation::Random { x, kk } => Ok(self.op_cxkk(x as usize, kk, random)),
            Operation::Draw { x, y, n } => self.op_dxyn(x as usize, y as usize, n as usize),
            Operation::SkipKey { x } => self.op_ex9e(x as usize),
            Operation::SkipNoKey { x } => self.op_exa1(x as usize),
            Operation::ReadDelay { x } => Ok(self.op_fx07(x as usize)),
            Operation::WaitKey { x } => Ok(self.op_fx0a(x as usize)),
            Operation::SetDelay { x } => Ok(self.op_fx15(x as usize)),
            Operation::SetSound { x } => Ok(self.op_fx18(x as usize)),
            Operation::AddIndex { x } => Ok(self.op_fx1e(x as usize)),
            Operation::FontGlyph { x } => Ok(self.op_fx29(x as usize)),
            Operation::Bcd { x } => self.op_fx33(x as usize),
            Operation::StoreRegs { x } => self.op_fx55(x as usize),
            Operation::LoadRegs { x } => self.op_fx65(x as usize),
            Operation::Unknown { op } => Ok(ProgramCounterAction::Increment),
        }
    }

    /// One fetch-decode-execute step; on an error nothing changes.
    fn step(&mut self, random: u8) -> (r: Result<(), Chip8Error>)
        requires
            old(self).wf(),
        ensures
            final(self).wf(),
            match step_spec(old(self)@, random) {
                Ok(t) => r == Ok::<(), Chip8Error>(()) && final(self)@ == t,
                Err(e) => r == Err::<(), Chip8Error>(e) && final(self)@ == old(self)@,
            },
    {
        let pc = self.program_counter;
        proof {
            crate::opcode::lemma_encode_decode(fetch(self@));
            lemma_execute_wf(self@, spec_decode(fetch(self@)), random);
        }
        if pc as usize + 1 >= MEMORY_SIZE {
            return Err(Chip8Error::ProgramCounterOutOfRange { pc });
        }
        match self.execute_operation(random) {
            Ok(action) => {
                self.program_counter = match action {
                    ProgramCounterAction::Increment => pc + 2,
                    ProgramCounterAction::Skip => pc + 4,
                    ProgramCounterAction::Jump(addr) => addr,
                };
                Ok(())
            },
            Err(e) => Err(e),
        }
    }

    /// Moves both timers one count towards zero.
    fn process_timer(&mut self)
        ensures
            final(self)@ == timers_advanced(old(self)@),
    {
        if self.delay_timer > 0 {
            self.delay_timer = self.delay_timer - 1;
        }
        if self.sound_timer > 0 {
            self.sound_timer = self.sound_timer - 1;
        }
    }

    /// The lowest key pressed in `now` and not in `before`.
    fn first_pressed(before: &[bool; KEY_COUNT], now: &[bool; KEY_COUNT]) -> (r: Option<usize>)
        ensures
            match r {
                Some(k) => k < KEY_COUNT && first_new_key(before@, now@, 0) == Some(k as int),
                None => first_new_key(before@, now@, 0) is None,
            },
    {
        let mut k: usize = 0;
        while k < KEY_COUNT
            invariant
                k <= KEY_COUNT,
                first_new_key(before@, now@, 0) == first_new_key(before@, now@, k as int),
            decreases KEY_COUNT - k,
        {
            if now[k] && !before[k] {
                return Some(k);
            }
            k = k + 1;
        }
        None
    }

    /// One tick with its time-dependent inputs given: whether the timer
    /// interval and the instruction interval have elapsed, and the random byte
    /// for a `Random` operation.
    pub fn advance(&mut self, input: [bool; KEY_COUNT], timer_due: bool, step_due: bool, random: u8) -> (r:
        Result<(), Chip8Error>)
        requires
            old(self).wf(),
        ensures
            (final(self)@, r) == tick_spec(old(self)@, input@, timer_due, step_due, random),
            final(self).wf(),
    {
        let before = self.input;
        if timer_due {
            self.process_timer();
        }
        self.input = input;
        self.screen_changed = false;
        if self.wait_for_input {
            match Self::first_pressed(&before, &input) {
                Some(k) => {
                    self.v[self.input_register] = k as u8;
                    self.wait_for_input = false;
                    self.input_register = 0;
                    Ok(())
                },
                None => Ok(()),
            }
        } else if step_due {
            self.step(random)
        } else {
            Ok(())
        }
    }

    /// One tick driven by the clock: the timers advance when
    /// `TIMER_INTERVAL_MS` have passed since they last did, and a step runs
    /// when `STEP_INTERVAL_MS` have passed since the last one. Whatever the
    /// clock and the random source gave, the tick is one of `tick_spec`, and
    /// on success the result shows the new screen, the dirty flag and whether
    /// the sound timer runs.
    pub fn tick(&mut self, input: [bool; KEY_COUNT]) -> (r: Result<TickResult<'_>, Chip8Error>)
        requires
            old(self).wf(),
        ensures
            final(self).wf(),
            exists|timer_due: bool, step_due: bool, random: u8|
                #[trigger] tick_spec(old(self)@, input@, timer_due, step_due, random) == (
                final(self)@,
                match r {
                    Ok(_) => Ok::<(), Chip8Error>(()),
                    Err(e) => Err(e),
                },
            ),
            r matches Ok(t) ==> screen_view(*t.screen_buffer) == final(self)@.screen
                && t.screen_changed == final(self)@.screen_changed && t.play_sound == (final(self)@.sound > 0),
    {
        let timer_due = whole_millis(&elapsed(&self.last_timer_tick)) >= TIMER_INTERVAL_MS;
        if timer_due {
            self.last_timer_tick = now();
        }
        let step_due = whole_millis(&elapsed(&self.last_tick)) >= STEP_INTERVAL_MS;
        if step_due && !self.wait_for_input {
            self.last_tick = now();
        }
        let random = random_byte();
        match self.advance(input, timer_due, step_due, random) {
            Ok(()) => Ok(
                TickResult {
                    screen_buffer: &self.screen_buffer,
                    screen_changed: self.screen_changed,
                    play_sound: self.sound_timer > 0,
                },
            ),
            Err(e) => Err(e),
        }
    }

    /// Register V`x`.
    pub fn register(&self, x: usize) -> (r: u8)
        requires
            x < KEY_COUNT,
        ensures
            r == self@.v[x as int],
    {
        self.v[x]
    }

    /// The index register I.
    pub fn index(&self) -> (r: u16)
        ensures
            r == self@.i,
    {
        self.i
    }

    pub fn program_counter(&self) -> (r: u16)
        ensures
            r == self@.pc,
    {
        self.program_counter
    }

    pub fn delay_timer(&self) -> (r: u8)
        ensures
            r == self@.delay,
    {
        self.delay_timer
    }

    pub fn sound_timer(&self) -> (r: u8)
        ensures
            r == self@.sound,
    {
        self.sound_timer
    }

    /// The byte at `address`.
    pub fn memory_at(&self, address: usize) -> (r: u8)
        requires
            address < MEMORY_SIZE,
        ensures
            r == self@.memory[address as int],
    {
        self.memory[address]
    }

    /// The number of return addresses on the call stack.
    pub fn stack_depth(&self) -> (r: usize)
        ensures
            r == self@.stack.len(),
    {
        self.stack.len()
    }

    /// Whether execution waits for a key press.
    pub fn is_waiting_for_key(&self) -> (r: bool)
        ensures
            r == self@.waiting,
    {
        self.wait_for_input
    }

    /// Whether the last tick cleared or drew on the screen.
    pub fn screen_changed(&self) -> (r: bool)
        ensures
            r == self@.screen_changed,
    {
        self.screen_changed
    }

    /// The screen, `screen()[y][x]`.
    pub fn screen(&self) -> (r: &[[bool; CHIP8_WIDTH]; CHIP8_HEIGHT])
        ensures
            screen_view(*r) == self@.screen,
    {
        &self.screen_buffer
    }
}

} // verus!
