use chip8::machine::Chip8;
use chip8::state::{Chip8Error, Cycle};

fn load(program: &[u8]) -> Chip8 {
    let mut m = Chip8::new();
    m.load_program(program).unwrap();
    m
}

fn run(program: &[u8], steps: usize) -> Chip8 {
    let mut m = load(program);
    for _ in 0..steps {
        m.step_with_random(0).unwrap();
    }
    m
}

#[test]
fn new_machine_is_pristine() {
    let m = Chip8::new();
    assert_eq!(m.pc(), 0x200);
    assert_eq!(m.index(), 0);
    assert_eq!(m.delay_timer(), 0);
    assert_eq!(m.sound_timer(), 0);
    assert_eq!(m.stack_depth(), 0);
    assert!(!m.draw_flag());
    for k in 0..16 {
        assert_eq!(m.register(k), 0);
    }
    assert_eq!(m.memory_byte(0), 0xF0);
    assert_eq!(m.memory_byte(5), 0x20);
    assert_eq!(m.memory_byte(79), 0x80);
    assert_eq!(m.memory_byte(80), 0);
    assert_eq!(m.memory_byte(0x200), 0);
    assert_eq!(m.framebuffer().len(), 2048);
    assert!(m.framebuffer().iter().all(|c| !c));
}

#[test]
fn add_registers_scenario() {
    let m = run(&[0x60, 0x05, 0x61, 0x03, 0x80, 0x14], 3);
    assert_eq!(m.register(0), 8);
    assert_eq!(m.register(0xF), 0);
    assert_eq!(m.pc(), 0x206);
}

#[test]
fn clear_loop_scenario() {
    let mut m = load(&[0x00, 0xE0, 0x12, 0x00]);
    for n in 1..=101 {
        m.step_with_random(0).unwrap();
        assert!(m.framebuffer().iter().all(|c| !c));
        if n % 2 == 1 {
            assert_eq!(m.pc(), 0x202);
        } else {
            assert_eq!(m.pc(), 0x200);
        }
    }
    assert_eq!(m.pc(), 0x202);
}

#[test]
fn add_with_carry_wraps() {
    let m = run(&[0x60, 0xC8, 0x61, 0x64, 0x80, 0x14], 3);
    assert_eq!(m.register(0), 44);
    assert_eq!(m.register(0xF), 1);
    let m = run(&[0x60, 0xFF, 0x61, 0x00, 0x80, 0x14], 3);
    assert_eq!(m.register(0), 255);
    assert_eq!(m.register(0xF), 0);
}

#[test]
fn carry_flag_wins_over_vf_result() {
    let m = run(&[0x6F, 0xC8, 0x61, 0x64, 0x8F, 0x14], 3);
    assert_eq!(m.register(0xF), 1);
    let m = run(&[0x6F, 0x01, 0x61, 0x02, 0x8F, 0x14], 3);
    assert_eq!(m.register(0xF), 0);
}

#[test]
fn subtract_with_borrow_wraps() {
    let m = run(&[0x60, 0x03, 0x61, 0x05, 0x80, 0x15], 3);
    assert_eq!(m.register(0), 254);
    assert_eq!(m.register(0xF), 0);
    let m = run(&[0x60, 0x05, 0x61, 0x05, 0x80, 0x15], 3);
    assert_eq!(m.register(0), 0);
    assert_eq!(m.register(0xF), 1);
}

#[test]
fn reverse_subtract_with_borrow_wraps() {
    let m = run(&[0x60, 0x05, 0x61, 0x03, 0x80, 0x17], 3);
    assert_eq!(m.register(0), 254);
    assert_eq!(m.register(0xF), 0);
    let m = run(&[0x60, 0x03, 0x61, 0x05, 0x80, 0x17], 3);
    assert_eq!(m.register(0), 2);
    assert_eq!(m.register(0xF), 1);
}

#[test]
fn add_immediate_wraps_without_flag() {
    let m = run(&[0x6F, 0x07, 0x60, 0xFF, 0x70, 0x02], 3);
    assert_eq!(m.register(0), 1);
    assert_eq!(m.register(0xF), 7);
}

#[test]
fn logic_operations() {
    let m = run(&[0x60, 0xCC, 0x61, 0xAA, 0x80, 0x11], 3);
    assert_eq!(m.register(0), 0xEE);
    let m = run(&[0x60, 0xCC, 0x61, 0xAA, 0x80, 0x12], 3);
    assert_eq!(m.register(0), 0x88);
    let m = run(&[0x60, 0xCC, 0x61, 0xAA, 0x80, 0x13], 3);
    assert_eq!(m.register(0), 0x66);
    let m = run(&[0x60, 0xCC, 0x61, 0xAA, 0x80, 0x10], 3);
    assert_eq!(m.register(0), 0xAA);
}

#[test]
fn shifts_set_flag_from_lost_bit() {
    let m = run(&[0x60, 0x05, 0x80, 0x06], 2);
    assert_eq!(m.register(0), 2);
    assert_eq!(m.register(0xF), 1);
    let m = run(&[0x60, 0x81, 0x80, 0x0E], 2);
    assert_eq!(m.register(0), 2);
    assert_eq!(m.register(0xF), 1);
    let m = run(&[0x60, 0x41, 0x80, 0x0E], 2);
    assert_eq!(m.register(0), 0x82);
    assert_eq!(m.register(0xF), 0);
}

#[test]
fn conditional_skips() {
    assert_eq!(run(&[0x60, 0x07, 0x30, 0x07], 2).pc(), 0x206);
    assert_eq!(run(&[0x60, 0x07, 0x30, 0x08], 2).pc(), 0x204);
    assert_eq!(run(&[0x60, 0x07, 0x40, 0x08], 2).pc(), 0x206);
    assert_eq!(run(&[0x60, 0x07, 0x40, 0x07], 2).pc(), 0x204);
    assert_eq!(run(&[0x60, 0x07, 0x61, 0x07, 0x50, 0x10], 3).pc(), 0x208);
    assert_eq!(run(&[0x60, 0x07, 0x61, 0x08, 0x50, 0x10], 3).pc(), 0x206);
    assert_eq!(run(&[0x60, 0x07, 0x61, 0x08, 0x90, 0x10], 3).pc(), 0x208);
    assert_eq!(run(&[0x60, 0x07, 0x61, 0x07, 0x90, 0x10], 3).pc(), 0x206);
}

#[test]
fn jumps_calls_and_returns() {
    assert_eq!(run(&[0x1A, 0xBC], 1).pc(), 0xABC);
    assert_eq!(run(&[0x60, 0x10, 0xB3, 0x00], 2).pc(), 0x310);
    let m = run(&[0x22, 0x04, 0x00, 0x00, 0x00, 0xEE], 1);
    assert_eq!(m.pc(), 0x204);
    assert_eq!(m.stack_depth(), 1);
    let m = run(&[0x22, 0x04, 0x00, 0x00, 0x00, 0xEE], 2);
    assert_eq!(m.pc(), 0x202);
    assert_eq!(m.stack_depth(), 0);
}

#[test]
fn call_stack_overflow_is_fatal() {
    let mut m = load(&[0x22, 0x00]);
    for _ in 0..16 {
        m.step_with_random(0).unwrap();
    }
    assert_eq!(m.stack_depth(), 16);
    assert_eq!(m.step_with_random(0), Err(Chip8Error::CallStackOverflow));
    assert_eq!(m.stack_depth(), 16);
    assert_eq!(m.pc(), 0x200);
}

#[test]
fn call_stack_underflow_is_fatal() {
    let mut m = load(&[0x00, 0xEE]);
    assert_eq!(m.step_with_random(0), Err(Chip8Error::CallStackUnderflow));
    assert_eq!(m.pc(), 0x200);
}

#[test]
fn unknown_opcode_reports_word_and_pc() {
    let mut m = load(&[0x60, 0x01, 0x80, 0x1F]);
    m.step_with_random(0).unwrap();
    assert_eq!(
        m.step_with_random(0),
        Err(Chip8Error::UnknownOpcode { opcode: 0x801F, pc: 0x202 })
    );
    assert_eq!(m.pc(), 0x202);
    assert_eq!(m.register(0), 1);
    let mut m = load(&[0xE0, 0x00]);
    assert_eq!(
        m.step_with_random(0),
        Err(Chip8Error::UnknownOpcode { opcode: 0xE000, pc: 0x200 })
    );
    let mut m = load(&[0xF0, 0x99]);
    assert_eq!(
        m.step_with_random(0),
        Err(Chip8Error::UnknownOpcode { opcode: 0xF099, pc: 0x200 })
    );
    let mut m = Chip8::new();
    assert_eq!(
        m.step_with_random(0),
        Err(Chip8Error::UnknownOpcode { opcode: 0x0000, pc: 0x200 })
    );
}

#[test]
fn oversized_program_is_refused() {
    let mut m = Chip8::new();
    let rom = vec![0x12u8; 4096 - 0x200 + 1];
    assert_eq!(m.load_program(&rom), Err(Chip8Error::LoaderOverflow));
    assert_eq!(m.memory_byte(0x200), 0);
    assert_eq!(m.memory_byte(0xFFF), 0);
    let rom = vec![0x12u8; 4096 - 0x200];
    assert_eq!(m.load_program(&rom), Ok(()));
    assert_eq!(m.memory_byte(0xFFF), 0x12);
}

#[test]
fn random_byte_is_masked() {
    let mut m = load(&[0xC3, 0x0F]);
    m.step_with_random(0xAB).unwrap();
    assert_eq!(m.register(3), 0x0B);
    let mut m = load(&[0xC3, 0x00, 0xC4, 0xF0]);
    m.step().unwrap();
    assert_eq!(m.register(3), 0);
    m.step().unwrap();
    assert_eq!(m.register(4) & 0x0F, 0);
    assert_eq!(m.pc(), 0x204);
}

#[test]
fn timers_count_down_and_tone_on_last_tick() {
    let mut m = load(&[0x60, 0x02, 0xF0, 0x15, 0x61, 0x01, 0xF1, 0x18, 0xF2, 0x07]);
    m.step_with_random(0).unwrap();
    m.step_with_random(0).unwrap();
    assert_eq!(m.delay_timer(), 1);
    m.step_with_random(0).unwrap();
    assert_eq!(m.delay_timer(), 0);
    assert_eq!(m.step_with_random(0), Ok(Cycle::CompletedWithTone));
    assert_eq!(m.sound_timer(), 0);
    assert_eq!(m.step_with_random(0), Ok(Cycle::Completed));
    assert_eq!(m.register(2), 0);
}

#[test]
fn index_operations() {
    let m = run(&[0xA1, 0x23], 1);
    assert_eq!(m.index(), 0x123);
    let m = run(&[0x60, 0x07, 0xF0, 0x29], 2);
    assert_eq!(m.index(), 35);
    let m = run(&[0xAF, 0xFE, 0x60, 0x03, 0xF0, 0x1E], 3);
    assert_eq!(m.index(), 0x001);
    assert_eq!(m.register(0xF), 1);
    let m = run(&[0xA1, 0x00, 0x60, 0x03, 0xF0, 0x1E], 3);
    assert_eq!(m.index(), 0x103);
    assert_eq!(m.register(0xF), 0);
}

#[test]
fn bcd_of_a_byte() {
    let m = run(&[0xA3, 0x00, 0x60, 0xFE, 0xF0, 0x33], 3);
    assert_eq!(m.memory_byte(0x300), 2);
    assert_eq!(m.memory_byte(0x301), 5);
    assert_eq!(m.memory_byte(0x302), 4);
    let m = run(&[0xA3, 0x00, 0x60, 0x07, 0xF0, 0x33], 3);
    assert_eq!(m.memory_byte(0x300), 0);
    assert_eq!(m.memory_byte(0x301), 0);
    assert_eq!(m.memory_byte(0x302), 7);
}

#[test]
fn store_then_load_round_trips() {
    let program = [
        0x60, 0x11, 0x61, 0x22, 0x62, 0x33, 0xA3, 0x00, 0xF2, 0x55, 0x60, 0x00, 0x61, 0x00,
        0x62, 0x00, 0xA3, 0x00, 0xF2, 0x65,
    ];
    let m = run(&program, 5);
    assert_eq!(m.index(), 0x303);
    assert_eq!(m.memory_byte(0x300), 0x11);
    assert_eq!(m.memory_byte(0x301), 0x22);
    assert_eq!(m.memory_byte(0x302), 0x33);
    assert_eq!(m.memory_byte(0x303), 0);
    let m = run(&program, 10);
    assert_eq!(m.register(0), 0x11);
    assert_eq!(m.register(1), 0x22);
    assert_eq!(m.register(2), 0x33);
    assert_eq!(m.index(), 0x303);
}

#[test]
fn key_skips() {
    let mut m = load(&[0x60, 0x05, 0xE0, 0x9E]);
    m.set_key(5, true);
    m.step_with_random(0).unwrap();
    m.step_with_random(0).unwrap();
    assert_eq!(m.pc(), 0x206);
    let mut m = load(&[0x60, 0x05, 0xE0, 0xA1]);
    m.set_key(5, true);
    m.step_with_random(0).unwrap();
    m.step_with_random(0).unwrap();
    assert_eq!(m.pc(), 0x204);
    let m = run(&[0x60, 0x05, 0xE0, 0xA1], 2);
    assert_eq!(m.pc(), 0x206);
}

#[test]
fn key_wait_blocks_then_takes_lowest_key() {
    let mut m = load(&[0x60, 0x09, 0xF0, 0x15, 0xF3, 0x0A]);
    m.step_with_random(0).unwrap();
    m.step_with_random(0).unwrap();
    assert_eq!(m.delay_timer(), 8);
    for _ in 0..5 {
        assert_eq!(m.step_with_random(0), Ok(Cycle::AwaitingKey));
        assert_eq!(m.pc(), 0x204);
        assert_eq!(m.delay_timer(), 8);
        assert_eq!(m.register(3), 0);
    }
    m.set_key(0xC, true);
    m.set_key(0x7, true);
    assert_eq!(m.step_with_random(0), Ok(Cycle::Completed));
    assert_eq!(m.register(3), 7);
    assert_eq!(m.pc(), 0x206);
    assert_eq!(m.delay_timer(), 7);
}

#[test]
fn clear_screen_clears_and_signals() {
    let mut m = load(&[0xD0, 0x15, 0x00, 0xE0]);
    m.step_with_random(0).unwrap();
    assert!(m.framebuffer().iter().any(|c| *c));
    m.clear_draw_flag();
    assert!(!m.draw_flag());
    m.step_with_random(0).unwrap();
    assert!(m.framebuffer().iter().all(|c| !c));
    assert!(m.draw_flag());
}

#[test]
fn draw_wraps_around_edges() {
    // glyph 0 (F0 90 90 90 F0) at (62, 31)
    let m = run(&[0x60, 0x3E, 0x61, 0x1F, 0xA0, 0x00, 0xD0, 0x15], 4);
    assert!(m.pixel(62, 31) && m.pixel(63, 31) && m.pixel(0, 31) && m.pixel(1, 31));
    assert!(!m.pixel(2, 31));
    assert!(m.pixel(62, 0) && !m.pixel(63, 0) && !m.pixel(0, 0) && m.pixel(1, 0));
    assert!(m.pixel(62, 3) && m.pixel(1, 3));
    assert!(!m.pixel(62, 4));
    assert_eq!(m.framebuffer().iter().filter(|c| **c).count(), 14);
    assert_eq!(m.register(0xF), 0);
    assert!(m.draw_flag());
}

#[test]
fn draw_twice_erases_and_collides() {
    let m = run(&[0x60, 0x0A, 0x61, 0x05, 0xA0, 0x05, 0xD0, 0x15], 4);
    assert_eq!(m.register(0xF), 0);
    assert!(m.pixel(12, 5));
    let m = run(&[0x60, 0x0A, 0x61, 0x05, 0xA0, 0x05, 0xD0, 0x15, 0xD0, 0x15], 5);
    assert_eq!(m.register(0xF), 1);
    assert!(m.framebuffer().iter().all(|c| !c));
}

#[test]
fn draw_of_empty_sprite_still_signals() {
    let m = run(&[0xD0, 0x10], 1);
    assert!(m.draw_flag());
    assert_eq!(m.register(0xF), 0);
    assert_eq!(m.pc(), 0x202);
}
