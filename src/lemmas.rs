//! Properties of the interpreter that relate several operations or ticks.

use vstd::prelude::*;
use crate::chip8::{
    blank_screen, draw_collides, drawn_screen, execute_spec, fetch, first_new_key, flag, sprite_bit, sprite_covers, step_spec,
    tick_spec, timers_advanced, Chip8Error, Chip8View, ProgramCounterAction, CHIP8_HEIGHT, CHIP8_WIDTH, FLAG,
    KEY_COUNT, MEMORY_SIZE, STACK_LIMIT,
};
use crate::opcode::{spec_decode, Operation};

verus! {

/// Drawing an `n`-row sprite at (0, 0) on a blank screen gives exactly the
/// sprite's bitmap in the top-left corner, and turns no pixel off (VF = 0).
pub proof fn lemma_draw_on_blank(s: Chip8View, x: u8, y: u8, n: u8, rnd: u8)
    requires
        s.wf(),
        s.screen == blank_screen(),
        x < 16,
        y < 16,
        n < 16,
        s.v[x as int] == 0,
        s.v[y as int] == 0,
        s.i + n <= MEMORY_SIZE,
    ensures
        execute_spec(s, Operation::Draw { x, y, n }, rnd) is Ok,
        ({
            let (t, a) = execute_spec(s, Operation::Draw { x, y, n }, rnd)->Ok_0;
            &&& a == ProgramCounterAction::Increment
            &&& t.v[FLAG as int] == 0
            &&& forall|r: int, c: int|
                0 <= r < CHIP8_HEIGHT && 0 <= c < CHIP8_WIDTH ==> #[trigger] t.screen[r][c] == (r < n && c
                    < 8 && sprite_bit(s.memory[s.i + r], c))
        }),
{
    let t = drawn_screen(s, 0, 0, n as int);
    assert forall|r: int, c: int| 0 <= r < CHIP8_HEIGHT && 0 <= c < CHIP8_WIDTH implies #[trigger] t[r][c] == (r < n
        && c < 8 && sprite_bit(s.memory[s.i + r], c)) by {
        assert(r % (CHIP8_HEIGHT as int) == r);
        assert(c % (CHIP8_WIDTH as int) == c);
    }
    assert(!draw_collides(s, 0, 0, n as int));
}

/// Drawing the same sprite twice at the same place restores the screen. When
/// the screen was blank, the second draw reports a collision (VF = 1) exactly
/// when the sprite has a set pixel. (Neither coordinate register is VF, which
/// the first draw overwrites.)
pub proof fn lemma_draw_twice(s: Chip8View, x: u8, y: u8, n: u8, rnd: u8)
    requires
        s.wf(),
        x < 15,
        y < 15,
        n < 16,
        s.i + n <= MEMORY_SIZE,
    ensures
        execute_spec(s, Operation::Draw { x, y, n }, rnd) is Ok,
        ({
            let t = execute_spec(s, Operation::Draw { x, y, n }, rnd)->Ok_0.0;
            &&& execute_spec(t, Operation::Draw { x, y, n }, rnd) is Ok
            &&& execute_spec(t, Operation::Draw { x, y, n }, rnd)->Ok_0.0.screen == s.screen
            &&& s.screen == blank_screen() ==> execute_spec(t, Operation::Draw { x, y, n }, rnd)->Ok_0.0.v[FLAG as int]
                == flag(
                exists|r: int, c: int|
                    0 <= r < CHIP8_HEIGHT && 0 <= c < CHIP8_WIDTH && #[trigger] sprite_covers(
                        s,
                        s.v[x as int],
                        s.v[y as int],
                        n as int,
                        r,
                        c,
                    ),
            )
        }),
{
    let vx = s.v[x as int];
    let vy = s.v[y as int];
    let t = execute_spec(s, Operation::Draw { x, y, n }, rnd)->Ok_0.0;
    assert(t.v[x as int] == vx && t.v[y as int] == vy);
    assert forall|r: int, c: int| #![trigger sprite_covers(t, vx, vy, n as int, r, c)]
        0 <= r < CHIP8_HEIGHT && 0 <= c < CHIP8_WIDTH implies sprite_covers(t, vx, vy, n as int, r, c)
        == sprite_covers(s, vx, vy, n as int, r, c) by {}
    let u = execute_spec(t, Operation::Draw { x, y, n }, rnd)->Ok_0.0;
    assert(u.screen =~~= s.screen);
    if s.screen == blank_screen() {
        if draw_collides(t, vx, vy, n as int) {
            let (r, c) = choose|r: int, c: int|
                0 <= r < CHIP8_HEIGHT && 0 <= c < CHIP8_WIDTH && t.screen[r][c] && #[trigger] sprite_covers(
                    t,
                    vx,
                    vy,
                    n as int,
                    r,
                    c,
                );
            assert(sprite_covers(s, vx, vy, n as int, r, c));
        }
        if exists|r: int, c: int|
            0 <= r < CHIP8_HEIGHT && 0 <= c < CHIP8_WIDTH && #[trigger] sprite_covers(s, vx, vy, n as int, r, c) {
            let (r, c) = choose|r: int, c: int|
                0 <= r < CHIP8_HEIGHT && 0 <= c < CHIP8_WIDTH && #[trigger] sprite_covers(s, vx, vy, n as int, r, c);
            assert(t.screen[r][c]);
            assert(sprite_covers(t, vx, vy, n as int, r, c));
        }
    }
}

/// A call followed by a return comes back to the instruction after the call,
/// with the stack as it was.
pub proof fn lemma_call_return(s: Chip8View, addr: u16, rnd1: u8, rnd2: u8)
    requires
        s.wf(),
        s.pc + 1 < MEMORY_SIZE,
        s.stack.len() < STACK_LIMIT,
        spec_decode(fetch(s)) == (Operation::Call { addr }),
    ensures
        step_spec(s, rnd1) is Ok,
        step_spec(s, rnd1)->Ok_0.pc == addr,
        ({
            let t = step_spec(s, rnd1)->Ok_0;
            t.pc + 1 < MEMORY_SIZE && spec_decode(fetch(t)) == Operation::Return ==> step_spec(t, rnd2) == Ok::<
                Chip8View,
                Chip8Error,
            >(Chip8View { pc: (s.pc + 2) as u16, stack: s.stack, ..t })
        }),
{
    let t = step_spec(s, rnd1)->Ok_0;
    assert(t.stack.drop_last() =~= s.stack);
}

/// While waiting for a key: a tick in which no key is pressed changes no
/// register, keeps the program counter and keeps waiting; a tick in which key
/// 7 is newly pressed and no lower key is pressed writes 7 into the key
/// register and ends the wait, and the tick after that runs a step as usual.
pub proof fn lemma_wait_for_key(
    s: Chip8View,
    keys: Seq<bool>,
    timer_due: bool,
    step_due: bool,
    rnd: u8,
)
    requires
        s.wf(),
        s.waiting,
        keys.len() == KEY_COUNT,
    ensures
        (forall|k: int| 0 <= k < KEY_COUNT ==> !#[trigger] keys[k]) ==> {
            let t = tick_spec(s, keys, timer_due, step_due, rnd).0;
            t.v == s.v && t.pc == s.pc && t.waiting
        },
        keys[7] && !s.keys[7] && (forall|k: int| 0 <= k < 7 ==> !#[trigger] keys[k]) ==> {
            let t = tick_spec(s, keys, timer_due, step_due, rnd).0;
            &&& t.v == s.v.update(s.key_register, 7)
            &&& t.pc == s.pc
            &&& !t.waiting
            &&& forall|keys2: Seq<bool>, timer_due2: bool, rnd2: u8|
                #[trigger] tick_spec(t, keys2, timer_due2, true, rnd2) == {
                    let u = Chip8View {
                        keys: keys2,
                        screen_changed: false,
                        ..(if timer_due2 { timers_advanced(t) } else { t })
                    };
                    match step_spec(u, rnd2) {
                        Ok(w) => (w, Ok(())),
                        Err(e) => (u, Err(e)),
                    }
                }
        },
{
    if forall|k: int| 0 <= k < KEY_COUNT ==> !#[trigger] keys[k] {
        assert(first_new_key(s.keys, keys, 0) is None) by {
            lemma_no_new_key(s.keys, keys, 0);
        }
    }
    if keys[7] && !s.keys[7] && (forall|k: int| 0 <= k < 7 ==> !#[trigger] keys[k]) {
        assert(first_new_key(s.keys, keys, 7) == Some(7int));
        lemma_skip_keys(s.keys, keys, 0, 7);
    }
}

proof fn lemma_no_new_key(before: Seq<bool>, now: Seq<bool>, k: int)
    requires
        0 <= k <= KEY_COUNT,
        forall|j: int| 0 <= j < KEY_COUNT ==> !#[trigger] now[j],
    ensures
        first_new_key(before, now, k) is None,
    decreases KEY_COUNT - k,
{
    if k < KEY_COUNT {
        lemma_no_new_key(before, now, k + 1);
    }
}

proof fn lemma_skip_keys(before: Seq<bool>, now: Seq<bool>, k: int, m: int)
    requires
        0 <= k <= m <= KEY_COUNT,
        forall|j: int| k <= j < m ==> !#[trigger] now[j],
    ensures
        first_new_key(before, now, k) == first_new_key(before, now, m),
    decreases m - k,
{
    if k < m {
        lemma_skip_keys(before, now, k + 1, m);
    }
}

/// The state after `k` ticks that advance the timers and run no step, with
/// the same key snapshot each time.
pub open spec fn timer_ticks(s: Chip8View, keys: Seq<bool>, k: nat) -> Chip8View
    decreases k,
{
    if k == 0 {
        s
    } else {
        tick_spec(timer_ticks(s, keys, (k - 1) as nat), keys, true, false, 0).0
    }
}

/// Repeated timer advances count each timer down by one per advance to exactly
/// zero, and then hold it at zero.
pub proof fn lemma_timers_run_down(s: Chip8View, keys: Seq<bool>, k: nat)
    requires
        s.wf(),
    ensures
        timer_ticks(s, keys, k).delay == if s.delay >= k {
            s.delay - k
        } else {
            0
        },
        timer_ticks(s, keys, k).sound == if s.sound >= k {
            s.sound - k
        } else {
            0
        },
    decreases k,
{
    if k > 0 {
        lemma_timers_run_down(s, keys, (k - 1) as nat);
    }
}

} // verus!
