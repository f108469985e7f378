use chip_oxide::{ChipConfig, ChipError, ChipIO, ChipOxide, Instruction, Screen, MEM_SIZE};
use std::collections::VecDeque;

#[derive(Default)]
struct Recorder {
    screens: usize,
    starts: usize,
    ends: usize,
    keys: VecDeque<(usize, bool)>,
    fail_screen: bool,
    polls: usize,
    last_screen: Option<Screen>,
    fail_end: bool,
    fail_poll: bool,
}

impl ChipIO for Recorder {
    fn update_screen(&mut self, screen: &Screen) -> Result<(), std::io::Error> {
        self.screens += 1;
        self.last_screen = Some(*screen);
        if self.fail_screen {
            return Err(std::io::Error::new(std::io::ErrorKind::Other, "display gone"));
        }
        Ok(())
    }
    fn start_beep(&mut self) -> Result<(), std::io::Error> {
        self.starts += 1;
        Ok(())
    }
    fn end_beep(&mut self) -> Result<(), std::io::Error> {
        self.ends += 1;
        if self.fail_end {
            return Err(std::io::Error::new(std::io::ErrorKind::Other, "beeper gone"));
        }
        Ok(())
    }
    fn get_key(&mut self) -> Result<Option<(usize, bool)>, std::io::Error> {
        self.polls += 1;
        if self.fail_poll {
            return Err(std::io::Error::new(std::io::ErrorKind::Other, "keypad gone"));
        }
        Ok(self.keys.pop_front())
    }
}

fn machine(program: &[u8], legacy: bool) -> ChipOxide<Recorder> {
    match ChipOxide::new(program, Recorder::default(), ChipConfig::default(legacy)) {
        Ok(m) => m,
        Err(e) => panic!("program refused: {:?}", e),
    }
}

fn run(m: &mut ChipOxide<Recorder>, steps: usize) {
    for _ in 0..steps {
        if let Err(e) = m.step() {
            panic!("step failed: {:?}", e);
        }
    }
}

#[test]
fn add_reg_sets_carry() {
    let mut m = machine(&[0x6A, 0xFA, 0x6B, 0x0A, 0x8A, 0xB4], false);
    run(&mut m, 3);
    assert_eq!(m.register(0xA), 4);
    assert_eq!(m.register(0xF), 1);

    let mut m = machine(&[0x6A, 10, 0x6B, 20, 0x6F, 7, 0x8A, 0xB4], false);
    run(&mut m, 4);
    assert_eq!(m.register(0xA), 30);
    assert_eq!(m.register(0xF), 0);
}

#[test]
fn sub_xy_borrows() {
    let mut m = machine(&[0x61, 10, 0x62, 5, 0x81, 0x25], false);
    run(&mut m, 3);
    assert_eq!(m.register(1), 5);
    assert_eq!(m.register(0xF), 1);

    let mut m = machine(&[0x61, 5, 0x62, 10, 0x81, 0x25], false);
    run(&mut m, 3);
    assert_eq!(m.register(1), 251);
    assert_eq!(m.register(0xF), 0);
}

#[test]
fn sub_yx_borrows() {
    let mut m = machine(&[0x61, 5, 0x62, 10, 0x81, 0x27], false);
    run(&mut m, 3);
    assert_eq!(m.register(1), 5);
    assert_eq!(m.register(0xF), 1);

    let mut m = machine(&[0x61, 10, 0x62, 5, 0x81, 0x27], false);
    run(&mut m, 3);
    assert_eq!(m.register(1), 251);
    assert_eq!(m.register(0xF), 0);
}

#[test]
fn shift_right_legacy_reads_y() {
    let mut m = machine(&[0x61, 0xAA, 0x62, 0b0000_0011, 0x81, 0x26], true);
    run(&mut m, 3);
    assert_eq!(m.register(1), 0b0000_0001);
    assert_eq!(m.register(0xF), 1);
}

#[test]
fn shift_right_in_place_divides() {
    let mut m = machine(&[0x61, 4, 0x62, 0xFF, 0x81, 0x26], false);
    run(&mut m, 3);
    assert_eq!(m.register(1), 2);
    assert_eq!(m.register(0xF), 0);
}

#[test]
fn shift_left_legacy_reads_y() {
    let mut m = machine(&[0x61, 0x00, 0x62, 0x81, 0x81, 0x2E], true);
    run(&mut m, 3);
    assert_eq!(m.register(1), 0x02);
    assert_eq!(m.register(0xF), 1);
}

#[test]
fn shift_left_in_place_multiplies() {
    // The in-place form doubles X, wrapping, and the flag takes the low bit
    // X had before.
    let mut m = machine(&[0x61, 0x83, 0x62, 0x00, 0x81, 0x2E], false);
    run(&mut m, 3);
    assert_eq!(m.register(1), 0x06);
    assert_eq!(m.register(0xF), 1);
}

#[test]
fn logic_ops_combine_registers() {
    let mut m = machine(
        &[0x61, 0b1100, 0x62, 0b1010, 0x83, 0x10, 0x83, 0x21, 0x84, 0x10, 0x84, 0x22, 0x85, 0x10, 0x85, 0x23],
        false,
    );
    run(&mut m, 8);
    assert_eq!(m.register(3), 0b1110);
    assert_eq!(m.register(4), 0b1000);
    assert_eq!(m.register(5), 0b0110);
}

#[test]
fn add_immediate_wraps_without_flag() {
    let mut m = machine(&[0x6F, 9, 0x61, 250, 0x71, 10], false);
    run(&mut m, 3);
    assert_eq!(m.register(1), 4);
    assert_eq!(m.register(0xF), 9);
}

#[test]
fn wait_key_without_keys_holds_the_counter() {
    let mut m = machine(&[0xF3, 0x0A], false);
    let before = m.program_counter();
    run(&mut m, 1);
    assert_eq!(m.program_counter(), before);
    run(&mut m, 1);
    assert_eq!(m.program_counter(), before);
}

#[test]
fn wait_key_takes_the_lowest_key() {
    let mut m = machine(&[0xF3, 0x0A], false);
    m.set_key(9, true).unwrap();
    m.set_key(4, true).unwrap();
    run(&mut m, 1);
    assert_eq!(m.register(3), 4);
    assert!(!m.key_down(4));
    assert!(m.key_down(9));
    assert_eq!(m.program_counter(), 0x202);
}

#[test]
fn draw_twice_clears_and_reports_collision() {
    // I = 0x20A; V0 = 5; V1 = 6; draw 1 row at (V0, V1), twice. The sprite
    // row at 0x20A has only its top bit set.
    let program = [0xA2, 0x0A, 0x60, 5, 0x61, 6, 0xD0, 0x11, 0xD0, 0x11, 0x80];
    let mut m = machine(&program, false);
    run(&mut m, 4);
    assert!(m.pixel(5, 6));
    assert_eq!(m.register(0xF), 0);
    run(&mut m, 1);
    assert!(!m.pixel(5, 6));
    assert_eq!(m.register(0xF), 1);
    assert_eq!(m.io().screens, 2);
}

#[test]
fn draw_clips_at_the_edges() {
    // V0 = 62, V1 = 31: a full 2-row sprite keeps only columns 62 and 63 of
    // row 31.
    let program = [0xA2, 0x0A, 0x60, 62, 0x61, 31, 0xD0, 0x12, 0x00, 0x00, 0xFF, 0xFF];
    let mut m = machine(&program, false);
    run(&mut m, 4);
    assert!(m.pixel(62, 31));
    assert!(m.pixel(63, 31));
    assert!(!m.pixel(0, 31));
    assert!(!m.pixel(62, 0));
    assert!(!m.pixel(0, 0));
    assert_eq!(m.register(0xF), 0);
}

#[test]
fn draw_wraps_the_origin() {
    // V0 = 64 + 3, V1 = 32 + 2: the sprite starts at (3, 2).
    let program = [0xA2, 0x0A, 0x60, 67, 0x61, 34, 0xD0, 0x11, 0x00, 0x00, 0xC0];
    let mut m = machine(&program, false);
    run(&mut m, 4);
    assert!(m.pixel(3, 2));
    assert!(m.pixel(4, 2));
    assert!(!m.pixel(5, 2));
}

#[test]
fn draw_reports_display_failure() {
    let program = [0xA2, 0x04, 0xD0, 0x01, 0x80];
    let mut io = Recorder::default();
    io.fail_screen = true;
    let mut m = ChipOxide::new(&program, io, ChipConfig::default(false)).unwrap();
    run(&mut m, 1);
    assert!(matches!(m.step(), Err(ChipError::Io(_))));
    assert!(m.pixel(0, 0));
}

#[test]
fn clear_blanks_the_screen() {
    let program = [0xA2, 0x06, 0xD0, 0x01, 0x00, 0xE0, 0xFF];
    let mut m = machine(&program, false);
    run(&mut m, 2);
    assert!(m.pixel(7, 0));
    run(&mut m, 1);
    assert!(!m.pixel(7, 0));
}

#[test]
fn store_bcd_least_significant_first() {
    let mut m = machine(&[0x60, 123, 0xA3, 0x00, 0xF0, 0x33], false);
    run(&mut m, 3);
    assert_eq!(m.memory_at(0x300), 3);
    assert_eq!(m.memory_at(0x301), 2);
    assert_eq!(m.memory_at(0x302), 1);
}

#[test]
fn store_then_load_restores_registers() {
    let program = [
        0x60, 11, 0x61, 22, 0x62, 33, 0x63, 44, 0xA3, 0x00, 0xF2, 0x55, // V0..V3, save V0..=V2
        0x60, 0, 0x61, 0, 0x62, 0, 0x63, 0, // clobber
        0xF2, 0x65, // load V0..=V2
    ];
    let mut m = machine(&program, false);
    run(&mut m, 6);
    assert_eq!(m.memory_at(0x300), 11);
    assert_eq!(m.memory_at(0x302), 33);
    assert_eq!(m.memory_at(0x303), 0);
    run(&mut m, 5);
    assert_eq!(m.register(0), 11);
    assert_eq!(m.register(1), 22);
    assert_eq!(m.register(2), 33);
    assert_eq!(m.register(3), 0);
    assert_eq!(m.index(), 0x300);
}

#[test]
fn sound_timer_ends_beep_once() {
    let mut m = machine(&[0x60, 1, 0xF0, 0x18], false);
    run(&mut m, 2);
    assert_eq!(m.sound_timer(), 1);
    assert_eq!(m.io().starts, 1);
    m.update_timer().unwrap();
    assert_eq!(m.sound_timer(), 0);
    assert_eq!(m.io().ends, 1);
    m.update_timer().unwrap();
    assert_eq!(m.sound_timer(), 0);
    assert_eq!(m.io().ends, 1);
}

#[test]
fn idle_timer_sends_nothing() {
    let mut m = machine(&[], false);
    m.update_timer().unwrap();
    assert_eq!(m.sound_timer(), 0);
    assert_eq!(m.delay_timer(), 0);
    assert_eq!(m.io().ends, 0);
    assert_eq!(m.io().starts, 0);
}

#[test]
fn delay_timer_counts_down() {
    let mut m = machine(&[0x60, 3, 0xF0, 0x15, 0xF1, 0x07], false);
    run(&mut m, 2);
    m.update_timer().unwrap();
    run(&mut m, 1);
    assert_eq!(m.delay_timer(), 2);
    assert_eq!(m.register(1), 2);
    assert_eq!(m.io().ends, 0);
}

#[test]
fn call_and_return() {
    // 0x200: call 0x206; 0x202: V1 = 1; 0x206: V2 = 2; return.
    let program = [0x22, 0x06, 0x61, 0x01, 0x00, 0x00, 0x62, 0x02, 0x00, 0xEE];
    let mut m = machine(&program, false);
    run(&mut m, 1);
    assert_eq!(m.program_counter(), 0x206);
    assert_eq!(m.stack_depth(), 1);
    run(&mut m, 2);
    assert_eq!(m.program_counter(), 0x202);
    assert_eq!(m.stack_depth(), 0);
    run(&mut m, 1);
    assert_eq!(m.register(1), 1);
    assert_eq!(m.register(2), 2);
}

#[test]
fn return_on_empty_stack_fails() {
    let mut m = machine(&[0x00, 0xEE], false);
    assert!(matches!(m.step(), Err(ChipError::StackUnderflow)));
}

#[test]
fn unknown_word_is_a_decode_error() {
    let mut m = machine(&[0x5A, 0xB1], false);
    match m.step() {
        Err(ChipError::Decode(w)) => assert_eq!(w, 0x5AB1),
        other => panic!("unexpected {:?}", other),
    }
    assert_eq!(m.program_counter(), 0x202);
}

#[test]
fn fetch_past_memory_fails() {
    let mut m = machine(&[0x1F, 0xFF], false);
    run(&mut m, 1);
    assert_eq!(m.program_counter(), 0xFFF);
    assert!(matches!(m.step(), Err(ChipError::AddressOutOfRange)));
    assert_eq!(m.program_counter(), 0xFFF);
}

#[test]
fn skips_compare_registers_and_immediates() {
    let program = [
        0x61, 5, 0x62, 5, // V1 = V2 = 5
        0x31, 5, 0x00, 0x00, // skip
        0x41, 5, // no skip
        0x51, 0x20, 0x00, 0x00, // skip
        0x91, 0x20, // no skip
    ];
    let mut m = machine(&program, false);
    run(&mut m, 3);
    assert_eq!(m.program_counter(), 0x208);
    run(&mut m, 1);
    assert_eq!(m.program_counter(), 0x20A);
    run(&mut m, 1);
    assert_eq!(m.program_counter(), 0x20E);
    run(&mut m, 1);
    assert_eq!(m.program_counter(), 0x210);
}

#[test]
fn key_skips_clear_keys() {
    let program = [0x61, 7, 0xE1, 0x9E, 0x00, 0x00, 0xE1, 0xA1];
    let mut m = machine(&program, false);
    m.set_key(7, true).unwrap();
    run(&mut m, 2);
    assert_eq!(m.program_counter(), 0x206);
    assert!(!m.key_down(7));
    run(&mut m, 1);
    assert_eq!(m.program_counter(), 0x20A);
    assert!(!m.key_down(7));
}

#[test]
fn key_up_skip_clears_a_held_key() {
    let program = [0x61, 7, 0xE1, 0xA1];
    let mut m = machine(&program, false);
    m.set_key(7, true).unwrap();
    run(&mut m, 2);
    assert_eq!(m.program_counter(), 0x204);
    assert!(!m.key_down(7));
}

#[test]
fn key_outside_the_keypad_is_refused() {
    let mut m = machine(&[0x61, 16, 0xE1, 0x9E], false);
    run(&mut m, 1);
    assert!(matches!(m.step(), Err(ChipError::KeyOutOfRange(16))));
    assert!(matches!(m.set_key(16, true), Err(ChipError::KeyOutOfRange(16))));
}

#[test]
fn offset_jump_register_depends_on_legacy() {
    let program = [0x60, 0x10, 0x63, 0x20, 0xB3, 0x00];
    let mut m = machine(&program, false);
    run(&mut m, 3);
    assert_eq!(m.program_counter(), 0x310);
    let mut m = machine(&program, true);
    run(&mut m, 3);
    assert_eq!(m.program_counter(), 0x320);
}

#[test]
fn font_and_index_arithmetic() {
    let mut m = machine(&[0x60, 0xA, 0xF0, 0x29], false);
    run(&mut m, 2);
    assert_eq!(m.index(), 50);
    assert_eq!(m.memory_at(50), 0xF0);
    assert_eq!(m.memory_at(51), 0x90);

    let mut m = machine(&[0xAF, 0xFF, 0x60, 0xFF, 0xF0, 0x1E], false);
    run(&mut m, 3);
    assert_eq!(m.index(), 0x10FE);
}

#[test]
fn index_add_wraps_at_sixteen_bits() {
    let mut m = machine(&[0x60, 0xFF], false);
    run(&mut m, 1);
    let mut last = m.index();
    for _ in 0..257 {
        m.execute_instruction(Instruction::AddIndex(0)).unwrap();
        assert_eq!(m.index(), last.wrapping_add(0xFF));
        last = m.index();
    }
    assert_eq!(m.index(), ((257u32 * 0xFF) % 0x10000) as u16);
}

#[test]
fn memory_operands_past_the_end_fail() {
    let mut m = machine(&[0xAF, 0xFE, 0xF2, 0x55], false);
    run(&mut m, 1);
    assert!(matches!(m.step(), Err(ChipError::AddressOutOfRange)));
    assert_eq!(m.memory_at(0xFFE), 0);
}

#[test]
fn random_masks_the_drawn_byte() {
    let mut m = machine(&[], false);
    m.execute_with_random(Instruction::Random(2, 0x0F), 0xAB).unwrap();
    assert_eq!(m.register(2), 0x0B);
    m.execute_with_random(Instruction::Random(2, 0x00), 0xAB).unwrap();
    assert_eq!(m.register(2), 0);
    for _ in 0..50 {
        m.execute_instruction(Instruction::Random(3, 0x0F)).unwrap();
        assert!(m.register(3) <= 0x0F);
    }
}

#[test]
fn loads_font_and_program() {
    let m = machine(&[1, 2, 3], false);
    assert_eq!(m.memory_at(0), 0xF0);
    assert_eq!(m.memory_at(79), 0x80);
    assert_eq!(m.memory_at(80), 0);
    assert_eq!(m.memory_at(0x200), 1);
    assert_eq!(m.memory_at(0x202), 3);
    assert_eq!(m.memory_at(0x203), 0);
    assert_eq!(m.program_counter(), 0x200);
    assert_eq!(m.index(), 0);
    assert_eq!(m.stack_depth(), 0);
}

#[test]
fn program_too_large_is_refused() {
    let big = vec![0u8; MEM_SIZE - 0x200 + 1];
    let r = ChipOxide::new(&big, Recorder::default(), ChipConfig::default(false));
    assert!(matches!(r, Err(ChipError::ProgramTooLarge(n)) if n == MEM_SIZE - 0x200 + 1));
    let fits = vec![0u8; MEM_SIZE - 0x200];
    assert!(ChipOxide::new(&fits, Recorder::default(), ChipConfig::default(false)).is_ok());
}

#[test]
fn cycle_polls_one_key_per_instruction() {
    let mut io = Recorder::default();
    io.keys.push_back((5, true));
    let config = ChipConfig { opcodes_per_cycle: 2, timer_hz: 60, legacy: false };
    let mut m = ChipOxide::new(&[0xF3, 0x0A, 0x64, 0x09], io, config).unwrap();
    m.cycle().unwrap();
    assert_eq!(m.register(3), 5);
    assert_eq!(m.register(4), 9);
    assert!(!m.key_down(5));
}

#[test]
fn config_defaults_and_checks() {
    let c = ChipConfig::default(true);
    assert_eq!(c.opcodes_per_cycle, 8);
    assert_eq!(c.timer_hz, 60);
    assert!(c.legacy);
    assert!(ChipConfig::new(0, 60, false).is_none());
    assert!(ChipConfig::new(1, 0, false).is_none());
    let c = ChipConfig::new(3, 30, false).unwrap();
    assert_eq!(c.opcodes_per_cycle, 3);
    assert_eq!(c.timer_hz, 30);
    assert!(!c.legacy);
}

#[test]
fn step_with_key_merges_before_fetch() {
    let mut m = machine(&[0xF3, 0x0A, 0xF3, 0x0A], false);
    m.step_with_key(Some((0xB, true))).unwrap();
    assert_eq!(m.register(3), 0xB);
    assert!(!m.key_down(0xB));
    m.step_with_key(None).unwrap();
    assert_eq!(m.program_counter(), 0x202);
    let pc = m.program_counter();
    assert!(matches!(m.step_with_key(Some((20, true))), Err(ChipError::KeyOutOfRange(20))));
    assert_eq!(m.program_counter(), pc);
}

#[test]
fn cycle_stops_on_a_zero_word() {
    let mut m = machine(&[0x00, 0x00], false);
    match m.cycle() {
        Err(ChipError::Decode(w)) => assert_eq!(w, 0x0000),
        other => panic!("unexpected {:?}", other),
    }
    assert_eq!(m.io().polls, 1);
    assert_eq!(m.io().screens, 0);
    assert_eq!(m.io().starts, 0);
    assert_eq!(m.io().ends, 0);
}

#[test]
fn cycle_draws_glyph_zero_then_stops() {
    let mut m = machine(&[0xA0, 0x00, 0xD0, 0x05, 0x00, 0x00], false);
    match m.cycle() {
        Err(ChipError::Decode(w)) => assert_eq!(w, 0x0000),
        other => panic!("unexpected {:?}", other),
    }
    assert_eq!(m.io().polls, 3);
    assert_eq!(m.io().screens, 1);
    let glyph = [0xF0u8, 0x90, 0x90, 0x90, 0xF0];
    let shown = m.io().last_screen.unwrap();
    for c in 0..64 {
        for r in 0..32 {
            let lit = c < 8 && r < 5 && (glyph[r] >> (7 - c)) & 1 == 1;
            assert_eq!(shown[c][r], lit, "pixel ({}, {})", c, r);
            assert_eq!(m.pixel(c, r), lit);
        }
    }
}

#[test]
fn sound_write_without_rising_edge_makes_no_call() {
    let mut io = Recorder::default();
    io.fail_screen = true;
    let mut m = ChipOxide::new(&[0x60, 3, 0xF0, 0x18, 0xF0, 0x18, 0x61, 0, 0xF1, 0x18], io, ChipConfig::default(false)).unwrap();
    run(&mut m, 3);
    assert_eq!(m.io().starts, 1);
    run(&mut m, 2);
    assert_eq!(m.io().starts, 1);
    assert_eq!(m.sound_timer(), 0);
}

#[test]
fn offset_jump_accepts_any_register() {
    let mut m = machine(&[0x65, 0x04], true);
    run(&mut m, 1);
    m.execute_instruction(Instruction::OffsetJump(5, 0x300)).unwrap();
    assert_eq!(m.program_counter(), 0x304);
}

#[test]
fn failed_end_beep_is_returned() {
    let mut io = Recorder::default();
    io.fail_end = true;
    let mut m = ChipOxide::new(&[0x60, 1, 0xF0, 0x18], io, ChipConfig::default(false)).unwrap();
    run(&mut m, 2);
    match m.update_timer() {
        Err(ChipError::Io(e)) => assert_eq!(e.to_string(), "beeper gone"),
        other => panic!("unexpected {:?}", other),
    }
    assert_eq!(m.sound_timer(), 0);
    assert_eq!(m.io().ends, 1);
}

#[test]
fn failed_poll_stops_the_batch() {
    let mut io = Recorder::default();
    io.fail_poll = true;
    let mut m = ChipOxide::new(&[0xA2, 0x04, 0xD0, 0x01, 0x80], io, ChipConfig::default(false)).unwrap();
    match m.cycle() {
        Err(ChipError::Io(e)) => assert_eq!(e.to_string(), "keypad gone"),
        other => panic!("unexpected {:?}", other),
    }
    assert_eq!(m.io().polls, 1);
    assert_eq!(m.io().screens, 0);
    assert_eq!(m.program_counter(), 0x200);
    assert_eq!(m.index(), 0);
}

#[test]
fn single_pixel_draw_succeeds() {
    let program = [0xA2, 0x08, 0x60, 5, 0x61, 3, 0xD0, 0x11, 0x80];
    let mut m = machine(&program, false);
    run(&mut m, 3);
    assert!(m.step().is_ok());
    assert!(m.pixel(5, 3));
    assert_eq!(m.register(0xF), 0);
    assert_eq!(m.io().screens, 1);
    let shown = m.io().last_screen.unwrap();
    for c in 0..64 {
        for r in 0..32 {
            assert_eq!(shown[c][r], c == 5 && r == 3);
        }
    }
}

#[test]
fn invalid_settings_are_refused() {
    let zero_rate = ChipConfig { opcodes_per_cycle: 8, timer_hz: 0, legacy: false };
    assert!(matches!(ChipOxide::new(&[], Recorder::default(), zero_rate), Err(ChipError::InvalidConfig)));
    let no_work = ChipConfig { opcodes_per_cycle: 0, timer_hz: 60, legacy: false };
    assert!(matches!(ChipOxide::new(&[], Recorder::default(), no_work), Err(ChipError::InvalidConfig)));
}
