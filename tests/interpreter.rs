use chip8::chip8::{Chip8, Chip8Error, CHIP8_HEIGHT, CHIP8_WIDTH, MEMORY_START};
use chip8::opcode::{decode, Operation};
use chip8::rom::RomLoader;

const NO_KEYS: [bool; 16] = [false; 16];

fn machine(program: &[u16]) -> Chip8 {
    let mut rom = Vec::new();
    for word in program {
        rom.push((word >> 8) as u8);
        rom.push((word & 0xFF) as u8);
    }
    let mut m = Chip8::new();
    m.load(rom);
    m
}

fn machine_with_bytes(rom: Vec<u8>) -> Chip8 {
    let mut m = Chip8::new();
    m.load(rom);
    m
}

fn step(m: &mut Chip8) {
    m.advance(NO_KEYS, false, true, 0).expect("step failed");
}

fn steps(m: &mut Chip8, n: usize) {
    for _ in 0..n {
        step(m);
    }
}

#[test]
fn decode_then_encode_gives_every_word_back() {
    for op in 0..=u16::MAX {
        assert_eq!(decode(op).encode(), op);
    }
}

#[test]
fn decode_picks_the_documented_pattern() {
    assert_eq!(decode(0x00E0), Operation::ClearScreen);
    assert_eq!(decode(0x00EE), Operation::Return);
    assert_eq!(decode(0x0123), Operation::Sys { addr: 0x123 });
    assert_eq!(decode(0x2300), Operation::Call { addr: 0x300 });
    assert_eq!(decode(0x8AB4), Operation::AddReg { x: 0xA, y: 0xB });
    assert_eq!(decode(0x8ABE), Operation::ShiftLeft { x: 0xA, y: 0xB });
    assert_eq!(decode(0xD12F), Operation::Draw { x: 1, y: 2, n: 0xF });
    assert_eq!(decode(0xF565), Operation::LoadRegs { x: 5 });
    assert_eq!(decode(0x5121), Operation::Unknown { op: 0x5121 });
    assert_eq!(decode(0xE1FF), Operation::Unknown { op: 0xE1FF });
    assert_eq!(decode(0xF1FF), Operation::Unknown { op: 0xF1FF });
}

#[test]
fn encode_then_decode_gives_the_operation_back() {
    let ops = [
        Operation::Sys { addr: 0x0FFF },
        Operation::Jump { addr: 0x0ABC },
        Operation::SkipNeImm { x: 3, kk: 0x7F },
        Operation::SubReverse { x: 0xE, y: 1 },
        Operation::Random { x: 9, kk: 0xF0 },
        Operation::Bcd { x: 0xC },
        Operation::Unknown { op: 0x9AB1 },
    ];
    for op in ops {
        assert_eq!(decode(op.encode()), op);
    }
    assert_eq!(Operation::AddReg { x: 0xA, y: 0xB }.encode(), 0x8AB4);
}

#[test]
fn new_machine_starts_at_program_origin() {
    let m = Chip8::new();
    assert_eq!(m.program_counter(), 0x200);
    assert_eq!(m.index(), 0);
    assert_eq!(m.stack_depth(), 0);
    assert_eq!(m.delay_timer(), 0);
    assert_eq!(m.sound_timer(), 0);
    assert!(!m.is_waiting_for_key());
    assert!(m.screen().iter().all(|row| row.iter().all(|p| !*p)));
    for x in 0..16 {
        assert_eq!(m.register(x), 0);
    }
}

#[test]
fn load_writes_font_and_program() {
    let loader = RomLoader { rom: vec![0x12, 0x34, 0x56] };
    let m = machine_with_bytes(loader.rom);
    let zero = [0xF0, 0x90, 0x90, 0x90, 0xF0];
    for (k, b) in zero.iter().enumerate() {
        assert_eq!(m.memory_at(k), *b);
    }
    let f = [0xF0, 0x80, 0xF0, 0x80, 0x80];
    for (k, b) in f.iter().enumerate() {
        assert_eq!(m.memory_at(75 + k), *b);
    }
    assert_eq!(m.memory_at(MEMORY_START), 0x12);
    assert_eq!(m.memory_at(MEMORY_START + 1), 0x34);
    assert_eq!(m.memory_at(MEMORY_START + 2), 0x56);
    assert_eq!(m.memory_at(MEMORY_START + 3), 0);
}

fn sprite_program() -> Vec<u8> {
    // 00E0, V0 = 0, V1 = 0, I = 0x20C, D015, D015, then the sprite bytes.
    let mut rom = vec![0x00, 0xE0, 0x60, 0x00, 0x61, 0x00, 0xA2, 0x0C, 0xD0, 0x15, 0xD0, 0x15];
    rom.extend_from_slice(&[0xF0, 0x90, 0xF0, 0x90, 0x91]);
    rom
}

#[test]
fn draw_sprite_once_on_cleared_screen() {
    let mut m = machine_with_bytes(sprite_program());
    steps(&mut m, 5);
    let sprite = [0xF0u8, 0x90, 0xF0, 0x90, 0x91];
    let screen = m.screen();
    for y in 0..CHIP8_HEIGHT {
        for x in 0..CHIP8_WIDTH {
            let expected = y < 5 && x < 8 && (sprite[y] >> (7 - x)) & 1 == 1;
            assert_eq!(screen[y][x], expected, "pixel ({}, {})", x, y);
        }
    }
    assert_eq!(m.register(0xF), 0);
    assert!(m.screen_changed());
}

#[test]
fn draw_same_sprite_twice_restores_screen() {
    let mut m = machine_with_bytes(sprite_program());
    steps(&mut m, 6);
    assert!(m.screen().iter().all(|row| row.iter().all(|p| !*p)));
    assert_eq!(m.register(0xF), 1);
}

#[test]
fn draw_wraps_around_the_edges() {
    // V0 = 62, V1 = 30, I = glyph of 0, D015.
    let mut m = machine(&[0x603E, 0x611E, 0xA000, 0xD015]);
    steps(&mut m, 4);
    let s = m.screen();
    // Row 0 of the glyph (0xF0) covers x = 62, 63, 0, 1 on y = 30.
    assert!(s[30][62] && s[30][63] && s[30][0] && s[30][1]);
    assert!(!s[30][2]);
    // Row 2 wraps to y = 0.
    assert!(s[0][62] && s[0][1] && !s[0][63]);
    assert_eq!(m.register(0xF), 0);
}

#[test]
fn add_sets_carry() {
    let mut m = machine(&[0x6AFA, 0x6B0A, 0x8AB4]);
    steps(&mut m, 3);
    assert_eq!(m.register(0xA), 4);
    assert_eq!(m.register(0xF), 1);

    let mut m = machine(&[0x6A0A, 0x6B0A, 0x8AB4]);
    steps(&mut m, 3);
    assert_eq!(m.register(0xA), 20);
    assert_eq!(m.register(0xF), 0);
}

#[test]
fn subtract_saturates() {
    let mut m = machine(&[0x6A05, 0x6B0A, 0x8AB5]);
    steps(&mut m, 3);
    assert_eq!(m.register(0xA), 0);
    assert_eq!(m.register(0xF), 0);

    let mut m = machine(&[0x6A0A, 0x6B05, 0x8AB5]);
    steps(&mut m, 3);
    assert_eq!(m.register(0xA), 5);
    assert_eq!(m.register(0xF), 1);
}

#[test]
fn reverse_subtract_mirrors_subtract() {
    let mut m = machine(&[0x6A05, 0x6B0A, 0x8AB7]);
    steps(&mut m, 3);
    assert_eq!(m.register(0xA), 5);
    assert_eq!(m.register(0xF), 1);

    let mut m = machine(&[0x6A0A, 0x6B05, 0x8AB7]);
    steps(&mut m, 3);
    assert_eq!(m.register(0xA), 0);
    assert_eq!(m.register(0xF), 0);
}

#[test]
fn add_immediate_wraps_without_flag() {
    let mut m = machine(&[0x6AFF, 0x6F07, 0x7A02]);
    steps(&mut m, 3);
    assert_eq!(m.register(0xA), 1);
    assert_eq!(m.register(0xF), 7);
}

#[test]
fn bitwise_operations() {
    let mut m = machine(&[0x6A0C, 0x6B0A, 0x8AB1, 0x6C0C, 0x8CB2, 0x6D0C, 0x8DB3, 0x8EB0]);
    steps(&mut m, 8);
    assert_eq!(m.register(0xA), 0x0E);
    assert_eq!(m.register(0xC), 0x08);
    assert_eq!(m.register(0xD), 0x06);
    assert_eq!(m.register(0xE), 0x0A);
}

#[test]
fn shifts_report_the_bit_shifted_out() {
    let mut m = machine(&[0x6A81, 0x8A06]);
    steps(&mut m, 2);
    assert_eq!(m.register(0xA), 0x40);
    assert_eq!(m.register(0xF), 1);

    let mut m = machine(&[0x6A81, 0x8A0E]);
    steps(&mut m, 2);
    assert_eq!(m.register(0xA), 0x02);
    assert_eq!(m.register(0xF), 1);

    let mut m = machine(&[0x6A40, 0x8A0E]);
    steps(&mut m, 2);
    assert_eq!(m.register(0xA), 0x80);
    assert_eq!(m.register(0xF), 0);
}

#[test]
fn call_then_return_comes_back_after_the_call() {
    let mut rom = vec![0u8; 0x102];
    rom[0] = 0x23;
    rom[1] = 0x00;
    rom[0x100] = 0x00;
    rom[0x101] = 0xEE;
    let mut m = machine_with_bytes(rom);
    step(&mut m);
    assert_eq!(m.program_counter(), 0x300);
    assert_eq!(m.stack_depth(), 1);
    step(&mut m);
    assert_eq!(m.program_counter(), 0x202);
    assert_eq!(m.stack_depth(), 0);
}

#[test]
fn bcd_writes_three_digits() {
    let mut m = machine(&[0x6AEA, 0xA300, 0xFA33]);
    steps(&mut m, 3);
    assert_eq!(m.memory_at(0x300), 2);
    assert_eq!(m.memory_at(0x301), 3);
    assert_eq!(m.memory_at(0x302), 4);
}

#[test]
fn wait_for_key_blocks_until_a_new_press() {
    let mut m = machine(&[0xF50A, 0x6101]);
    step(&mut m);
    assert!(m.is_waiting_for_key());
    assert_eq!(m.program_counter(), 0x202);
    for _ in 0..3 {
        m.advance(NO_KEYS, false, true, 0).unwrap();
        assert_eq!(m.register(5), 0);
        assert_eq!(m.program_counter(), 0x202);
        assert!(m.is_waiting_for_key());
    }
    let mut keys = NO_KEYS;
    keys[7] = true;
    keys[9] = true;
    m.advance(keys, false, true, 0).unwrap();
    assert_eq!(m.register(5), 7);
    assert!(!m.is_waiting_for_key());
    assert_eq!(m.program_counter(), 0x202);
    m.advance(keys, false, true, 0).unwrap();
    assert_eq!(m.register(1), 1);
    assert_eq!(m.program_counter(), 0x204);
}

#[test]
fn wait_for_key_ignores_a_key_already_held() {
    let mut m = machine(&[0xF50A]);
    let mut held = NO_KEYS;
    held[3] = true;
    m.advance(held, false, true, 0).unwrap();
    assert!(m.is_waiting_for_key());
    m.advance(held, false, true, 0).unwrap();
    assert!(m.is_waiting_for_key());
    let mut more = held;
    more[12] = true;
    m.advance(more, false, true, 0).unwrap();
    assert!(!m.is_waiting_for_key());
    assert_eq!(m.register(5), 12);
}

#[test]
fn timers_count_down_to_zero_and_hold() {
    let mut m = machine(&[0x6A03, 0xFA15, 0xFA18]);
    steps(&mut m, 3);
    assert_eq!(m.delay_timer(), 3);
    assert_eq!(m.sound_timer(), 3);
    let mut expected = [2u8, 1, 0, 0, 0].iter();
    for _ in 0..5 {
        m.advance(NO_KEYS, true, false, 0).unwrap();
        let e = *expected.next().unwrap();
        assert_eq!(m.delay_timer(), e);
        assert_eq!(m.sound_timer(), e);
    }
    assert_eq!(m.program_counter(), 0x206);
}

#[test]
fn read_delay_timer() {
    let mut m = machine(&[0x6A09, 0xFA15, 0xFB07]);
    steps(&mut m, 3);
    assert_eq!(m.register(0xB), 9);
}

#[test]
fn skips_and_jumps() {
    // 3A00 skips (VA == 0), 4A00 does not, 5AB0 skips, 9AB0 does not.
    let mut m = machine(&[0x3A00, 0x0000, 0x4A00, 0x5AB0, 0x0000, 0x9AB0]);
    step(&mut m);
    assert_eq!(m.program_counter(), 0x204);
    step(&mut m);
    assert_eq!(m.program_counter(), 0x206);
    step(&mut m);
    assert_eq!(m.program_counter(), 0x20A);
    step(&mut m);
    assert_eq!(m.program_counter(), 0x20C);

    let mut m = machine(&[0x6004, 0xB300]);
    steps(&mut m, 2);
    assert_eq!(m.program_counter(), 0x304);

    let mut m = machine(&[0x1ABC]);
    step(&mut m);
    assert_eq!(m.program_counter(), 0xABC);
}

#[test]
fn key_skips_follow_the_snapshot() {
    let mut keys = NO_KEYS;
    keys[4] = true;
    let mut m = machine(&[0x6A04, 0xEA9E, 0x0000, 0xEAA1]);
    m.advance(keys, false, true, 0).unwrap();
    m.advance(keys, false, true, 0).unwrap();
    assert_eq!(m.program_counter(), 0x206);
    m.advance(keys, false, true, 0).unwrap();
    assert_eq!(m.program_counter(), 0x208);
}

#[test]
fn index_operations() {
    let mut m = machine(&[0xAF00, 0x6A01, 0xFA1E]);
    steps(&mut m, 3);
    assert_eq!(m.index(), 0xF01);
    assert_eq!(m.register(0xF), 1);

    let mut m = machine(&[0xA100, 0x6A01, 0xFA1E]);
    steps(&mut m, 3);
    assert_eq!(m.index(), 0x101);
    assert_eq!(m.register(0xF), 0);

    let mut m = machine(&[0x6A0A, 0xFA29]);
    steps(&mut m, 2);
    assert_eq!(m.index(), 50);
}

#[test]
fn store_and_load_registers_up_to_x_exclusive() {
    let mut m = machine(&[0x6001, 0x6102, 0x6203, 0x6304, 0xA300, 0xF355, 0x6000, 0x6100, 0x6200, 0xA300, 0xF265]);
    steps(&mut m, 6);
    assert_eq!(m.memory_at(0x300), 1);
    assert_eq!(m.memory_at(0x301), 2);
    assert_eq!(m.memory_at(0x302), 3);
    assert_eq!(m.memory_at(0x303), 0);
    steps(&mut m, 5);
    assert_eq!(m.register(0), 1);
    assert_eq!(m.register(1), 2);
    assert_eq!(m.register(2), 0);
}

#[test]
fn random_is_masked() {
    let mut m = machine(&[0xC00F, 0xC1F0]);
    m.advance(NO_KEYS, false, true, 0xAB).unwrap();
    m.advance(NO_KEYS, false, true, 0xAB).unwrap();
    assert_eq!(m.register(0), 0x0B);
    assert_eq!(m.register(1), 0xA0);
}

#[test]
fn unknown_and_system_words_only_advance() {
    let mut m = machine(&[0x5121, 0x0123, 0xE1FF]);
    steps(&mut m, 3);
    assert_eq!(m.program_counter(), 0x206);
    for x in 0..16 {
        assert_eq!(m.register(x), 0);
    }
}

#[test]
fn clear_marks_screen_changed_only_on_that_tick() {
    let mut m = machine(&[0x00E0, 0x6000]);
    step(&mut m);
    assert!(m.screen_changed());
    step(&mut m);
    assert!(!m.screen_changed());
}

#[test]
fn return_on_empty_stack_is_an_error() {
    let mut m = machine(&[0x00EE]);
    assert_eq!(m.advance(NO_KEYS, false, true, 0), Err(Chip8Error::StackUnderflow));
    assert_eq!(m.program_counter(), 0x200);
}

#[test]
fn call_beyond_sixteen_levels_is_an_error() {
    let mut m = machine(&[0x2200]);
    for _ in 0..16 {
        step(&mut m);
    }
    assert_eq!(m.stack_depth(), 16);
    assert_eq!(m.advance(NO_KEYS, false, true, 0), Err(Chip8Error::StackOverflow));
    assert_eq!(m.stack_depth(), 16);
}

#[test]
fn program_counter_past_memory_is_an_error() {
    let mut m = machine(&[0x1FFF]);
    step(&mut m);
    assert_eq!(
        m.advance(NO_KEYS, false, true, 0),
        Err(Chip8Error::ProgramCounterOutOfRange { pc: 0xFFF })
    );
}

#[test]
fn memory_past_the_end_is_an_error() {
    let mut m = machine(&[0xAFFE, 0xD015]);
    step(&mut m);
    assert_eq!(
        m.advance(NO_KEYS, false, true, 0),
        Err(Chip8Error::MemoryOutOfRange { index: 0xFFE })
    );
    assert_eq!(m.program_counter(), 0x202);

    let mut m = machine(&[0xAFFE, 0xF033]);
    step(&mut m);
    assert_eq!(
        m.advance(NO_KEYS, false, true, 0),
        Err(Chip8Error::MemoryOutOfRange { index: 0xFFE })
    );

    let mut m = machine(&[0xAFFE, 0xF355]);
    step(&mut m);
    assert_eq!(
        m.advance(NO_KEYS, false, true, 0),
        Err(Chip8Error::MemoryOutOfRange { index: 0xFFE })
    );
}

#[test]
fn key_above_f_is_an_error() {
    let mut m = machine(&[0x6A20, 0xEA9E]);
    step(&mut m);
    assert_eq!(m.advance(NO_KEYS, false, true, 0), Err(Chip8Error::KeyOutOfRange { key: 0x20 }));
}

#[test]
fn clock_driven_tick_eventually_steps() {
    let mut m = machine(&[0x6A05, 0xFA18, 0x1204]);
    let mut ticks: u64 = 0;
    while m.program_counter() != 0x204 && ticks < 100_000_000 {
        let r = m.tick(NO_KEYS).expect("tick failed");
        assert!(!r.screen_changed);
        ticks += 1;
    }
    assert_eq!(m.register(0xA), 5);
    assert_eq!(m.sound_timer(), 5);
    let r = m.tick(NO_KEYS).unwrap();
    assert_eq!(r.play_sound, true);
    assert_eq!(r.screen_buffer.len(), CHIP8_HEIGHT);
}
