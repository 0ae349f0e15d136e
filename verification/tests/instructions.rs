use chip8_emu::{Emu, Fault};

fn loaded(program: &[u8]) -> Emu {
    let mut emu = Emu::new();
    assert_eq!(emu.load(program), Ok(()));
    emu
}

fn advance(emu: &mut Emu, n: usize) {
    for _ in 0..n {
        assert_eq!(emu.tick(), Ok(()));
    }
}

/// Runs `8xyN` on V1 = a, V2 = b and returns V1 and the flag register.
fn alu(a: u8, b: u8, n: u8) -> (u8, u8) {
    let mut emu = loaded(&[0x61, a, 0x62, b, 0x81, 0x20 | n]);
    advance(&mut emu, 3);
    assert_eq!(emu.register(2), b);
    (emu.register(1), emu.register(0xF))
}

#[test]
fn nop_only_moves_the_program_counter() {
    let mut emu = loaded(&[0x00, 0x00]);
    advance(&mut emu, 1);
    assert_eq!(emu.pc(), 0x202);
    for x in 0..16 {
        assert_eq!(emu.register(x), 0);
    }
}

#[test]
fn jump_sets_the_program_counter() {
    let mut emu = loaded(&[0x1A, 0xBC]);
    advance(&mut emu, 1);
    assert_eq!(emu.pc(), 0xABC);
}

#[test]
fn jump_with_offset_adds_register_zero() {
    let mut emu = loaded(&[0x60, 0xFF, 0xBF, 0xFF]);
    advance(&mut emu, 2);
    assert_eq!(emu.pc(), 0xFFF + 0xFF);
}

#[test]
fn call_then_return_resumes_after_the_call() {
    // 0x200: call 0x206; 0x202: V0 = 1; 0x206: return
    let mut emu = loaded(&[0x22, 0x06, 0x60, 0x01, 0x00, 0x00, 0x00, 0xEE]);
    advance(&mut emu, 1);
    assert_eq!(emu.pc(), 0x206);
    assert_eq!(emu.stack_depth(), 1);
    advance(&mut emu, 1);
    assert_eq!(emu.pc(), 0x202);
    assert_eq!(emu.stack_depth(), 0);
    advance(&mut emu, 1);
    assert_eq!(emu.register(0), 1);
}

#[test]
fn nested_calls_return_in_reverse_order() {
    // 0x200: call 0x204; 0x202: jump 0x202; 0x204: call 0x208; 0x206: return; 0x208: return
    let mut emu = loaded(&[0x22, 0x04, 0x12, 0x02, 0x22, 0x08, 0x00, 0xEE, 0x00, 0xEE]);
    advance(&mut emu, 2);
    assert_eq!(emu.pc(), 0x208);
    assert_eq!(emu.stack_depth(), 2);
    advance(&mut emu, 1);
    assert_eq!(emu.pc(), 0x206);
    advance(&mut emu, 1);
    assert_eq!(emu.pc(), 0x202);
    assert_eq!(emu.stack_depth(), 0);
}

#[test]
fn skip_if_equal_immediate() {
    let mut emu = loaded(&[0x63, 0x2A, 0x33, 0x2A, 0x00, 0x00, 0x33, 0x2B]);
    advance(&mut emu, 2);
    assert_eq!(emu.pc(), 0x206);
    advance(&mut emu, 1);
    assert_eq!(emu.pc(), 0x208);
}

#[test]
fn skip_if_not_equal_immediate() {
    let mut emu = loaded(&[0x63, 0x2A, 0x43, 0x2B, 0x00, 0x00, 0x43, 0x2A]);
    advance(&mut emu, 2);
    assert_eq!(emu.pc(), 0x206);
    advance(&mut emu, 1);
    assert_eq!(emu.pc(), 0x208);
}

#[test]
fn skip_if_registers_equal() {
    let mut emu = loaded(&[0x61, 0x07, 0x62, 0x07, 0x51, 0x20, 0x00, 0x00, 0x51, 0x30]);
    advance(&mut emu, 3);
    assert_eq!(emu.pc(), 0x208);
    advance(&mut emu, 1);
    assert_eq!(emu.pc(), 0x20A);
}

#[test]
fn skip_if_registers_differ() {
    let mut emu = loaded(&[0x61, 0x07, 0x62, 0x07, 0x91, 0x30, 0x00, 0x00, 0x91, 0x20]);
    advance(&mut emu, 3);
    assert_eq!(emu.pc(), 0x208);
    advance(&mut emu, 1);
    assert_eq!(emu.pc(), 0x20A);
}

#[test]
fn load_immediate_and_add_immediate_wrap_without_flag() {
    let mut emu = loaded(&[0x6F, 0x09, 0x64, 0xFF, 0x74, 0x02]);
    advance(&mut emu, 3);
    assert_eq!(emu.register(4), 0x01);
    assert_eq!(emu.register(0xF), 0x09);
}

#[test]
fn copy_and_bitwise_operations() {
    assert_eq!(alu(0x0C, 0x0A, 0x0), (0x0A, 0));
    assert_eq!(alu(0x0C, 0x0A, 0x1), (0x0E, 0));
    assert_eq!(alu(0x0C, 0x0A, 0x2), (0x08, 0));
    assert_eq!(alu(0x0C, 0x0A, 0x3), (0x06, 0));
}

#[test]
fn add_sets_flag_exactly_on_overflow() {
    assert_eq!(alu(5, 10, 0x4), (15, 0));
    assert_eq!(alu(200, 100, 0x4), (44, 1));
    assert_eq!(alu(255, 1, 0x4), (0, 1));
    assert_eq!(alu(255, 0, 0x4), (255, 0));
    assert_eq!(alu(128, 127, 0x4), (255, 0));
    assert_eq!(alu(128, 128, 0x4), (0, 1));
}

#[test]
fn add_is_commutative_over_all_values() {
    for a in 0..=255u8 {
        for b in [0u8, 1, 2, 100, 127, 128, 200, 254, 255] {
            let left = alu(a, b, 0x4);
            let right = alu(b, a, 0x4);
            assert_eq!(left, right);
            assert_eq!(left.0, a.wrapping_add(b));
            assert_eq!(left.1 == 1, a as u16 + b as u16 >= 256);
        }
    }
}

#[test]
fn sub_clears_flag_exactly_on_borrow() {
    assert_eq!(alu(10, 5, 0x5), (5, 1));
    assert_eq!(alu(5, 10, 0x5), (251, 0));
    assert_eq!(alu(7, 7, 0x5), (0, 1));
    assert_eq!(alu(0, 255, 0x5), (1, 0));
    for a in [0u8, 1, 100, 255] {
        for b in 0..=255u8 {
            let (diff, flag) = alu(a, b, 0x5);
            assert_eq!(diff, a.wrapping_sub(b));
            assert_eq!(flag == 0, a < b);
        }
    }
}

#[test]
fn reverse_sub_takes_x_from_y() {
    assert_eq!(alu(5, 10, 0x7), (5, 1));
    assert_eq!(alu(10, 5, 0x7), (251, 0));
    assert_eq!(alu(7, 7, 0x7), (0, 1));
}

#[test]
fn shift_right_moves_low_bit_to_flag() {
    assert_eq!(alu(0x81, 0, 0x6), (0x40, 1));
    assert_eq!(alu(0x80, 0, 0x6), (0x40, 0));
    assert_eq!(alu(0x01, 0, 0x6), (0x00, 1));
    for a in 0..=255u8 {
        assert_eq!(alu(a, 0x55, 0x6), (a >> 1, a & 1));
    }
}

#[test]
fn shift_left_moves_high_bit_to_flag() {
    assert_eq!(alu(0x81, 0, 0xE), (0x02, 1));
    assert_eq!(alu(0x41, 0, 0xE), (0x82, 0));
    assert_eq!(alu(0x80, 0, 0xE), (0x00, 1));
    for a in 0..=255u8 {
        assert_eq!(alu(a, 0x55, 0xE), (a << 1, a >> 7));
    }
}

#[test]
fn flag_wins_when_the_target_is_the_flag_register() {
    // VF = 200, V1 = 100, VF += V1
    let mut emu = loaded(&[0x6F, 200, 0x61, 100, 0x8F, 0x14]);
    advance(&mut emu, 3);
    assert_eq!(emu.register(0xF), 1);
}

#[test]
fn set_index_register() {
    let mut emu = loaded(&[0xA1, 0x23]);
    advance(&mut emu, 1);
    assert_eq!(emu.index(), 0x123);
}

#[test]
fn add_to_index_wraps_in_sixteen_bits() {
    let mut emu = loaded(&[0xAF, 0xFF, 0x60, 0x01, 0xF0, 0x1E]);
    advance(&mut emu, 3);
    assert_eq!(emu.index(), 0x1000);
    // sixteen times 0xFF0 short of 0x10000, then 0xFF more
    let mut program = vec![0xAF, 0xFF, 0x60, 0xFF];
    for _ in 0..241 {
        program.extend_from_slice(&[0xF0, 0x1E]);
    }
    let mut emu = loaded(&program);
    advance(&mut emu, 2 + 241);
    assert_eq!(emu.index(), ((0xFFFu32 + 241 * 255) % 65536) as u16);
    assert_eq!(emu.index(), 14);
}

#[test]
fn random_is_masked_by_the_immediate() {
    let mut emu = loaded(&[0xC3, 0x0F, 0xC4, 0xF0, 0xC5, 0x00]);
    assert_eq!(emu.tick_with(0xAB), Ok(()));
    assert_eq!(emu.register(3), 0x0B);
    assert_eq!(emu.tick_with(0xAB), Ok(()));
    assert_eq!(emu.register(4), 0xA0);
    assert_eq!(emu.tick_with(0xAB), Ok(()));
    assert_eq!(emu.register(5), 0x00);
    assert_eq!(emu.pc(), 0x206);
}

#[test]
fn random_from_the_generator_stays_within_the_mask() {
    for _ in 0..64 {
        let mut emu = loaded(&[0xC3, 0x3C]);
        advance(&mut emu, 1);
        assert_eq!(emu.register(3) & !0x3C, 0);
        assert_eq!(emu.pc(), 0x202);
    }
}

#[test]
fn random_from_the_generator_varies() {
    let mut seen = [false; 256];
    for _ in 0..4096 {
        let mut emu = loaded(&[0xC0, 0xFF]);
        advance(&mut emu, 1);
        seen[emu.register(0) as usize] = true;
    }
    assert!(seen.iter().filter(|s| **s).count() > 1);
}

#[test]
fn tick_with_ignores_the_byte_outside_the_random_instruction() {
    let mut a = loaded(&[0x60, 0x05, 0x70, 0x01]);
    let mut b = loaded(&[0x60, 0x05, 0x70, 0x01]);
    assert_eq!(a.tick_with(0x00), Ok(()));
    assert_eq!(b.tick_with(0xFF), Ok(()));
    assert_eq!(a.tick_with(0x12), Ok(()));
    assert_eq!(b.tick_with(0x34), Ok(()));
    assert_eq!(a.register(0), 6);
    assert_eq!(b.register(0), 6);
    assert_eq!(a.pc(), b.pc());
}

#[test]
fn skip_if_key_pressed() {
    let mut emu = loaded(&[0x61, 0x0B, 0xE1, 0x9E, 0x00, 0x00, 0xE1, 0x9E]);
    advance(&mut emu, 2);
    assert_eq!(emu.pc(), 0x204);
    advance(&mut emu, 1);
    emu.keypress(0xB, true);
    advance(&mut emu, 1);
    assert_eq!(emu.pc(), 0x20A);
}

#[test]
fn skip_if_key_not_pressed() {
    let mut emu = loaded(&[0x61, 0x0B, 0xE1, 0xA1, 0x00, 0x00, 0xE1, 0xA1]);
    advance(&mut emu, 2);
    assert_eq!(emu.pc(), 0x206);
    emu.keypress(0xB, true);
    advance(&mut emu, 1);
    assert_eq!(emu.pc(), 0x208);
}

#[test]
fn key_wait_holds_the_program_counter() {
    let mut emu = loaded(&[0x00, 0x00, 0xF5, 0x0A]);
    advance(&mut emu, 1);
    let before = emu.pc();
    assert_eq!(before, 0x202);
    for _ in 0..25 {
        advance(&mut emu, 1);
        assert_eq!(emu.pc(), before);
        assert_eq!(emu.register(5), 0);
    }
}

#[test]
fn key_wait_takes_the_lowest_pressed_key() {
    let mut emu = loaded(&[0xF5, 0x0A]);
    advance(&mut emu, 3);
    assert_eq!(emu.pc(), 0x200);
    emu.keypress(0xC, true);
    emu.keypress(0x7, true);
    emu.keypress(0x9, true);
    advance(&mut emu, 1);
    assert_eq!(emu.pc(), 0x202);
    assert_eq!(emu.register(5), 0x7);
}

#[test]
fn key_wait_sees_key_zero() {
    let mut emu = loaded(&[0x65, 0x33, 0xF5, 0x0A]);
    emu.keypress(0, true);
    emu.keypress(0xF, true);
    advance(&mut emu, 2);
    assert_eq!(emu.pc(), 0x204);
    assert_eq!(emu.register(5), 0);
}

#[test]
fn delay_timer_moves_through_registers() {
    let mut emu = loaded(&[0x61, 0x2C, 0xF1, 0x15, 0xF2, 0x07, 0xF1, 0x18]);
    advance(&mut emu, 2);
    assert_eq!(emu.delay_timer(), 0x2C);
    emu.tick_timers();
    advance(&mut emu, 2);
    assert_eq!(emu.register(2), 0x2B);
    assert_eq!(emu.sound_timer(), 0x2C);
}

#[test]
fn glyph_address_is_five_times_the_digit() {
    let mut emu = loaded(&[0x61, 0x0A, 0xF1, 0x29, 0x61, 0xFF, 0xF1, 0x29]);
    advance(&mut emu, 2);
    assert_eq!(emu.index(), 50);
    advance(&mut emu, 2);
    assert_eq!(emu.index(), 1275);
}

#[test]
fn decimal_digits_are_stored_at_the_index() {
    let mut emu = loaded(&[0x61, 254, 0xA3, 0x00, 0xF1, 0x33, 0x61, 7, 0xA3, 0x10, 0xF1, 0x33]);
    advance(&mut emu, 3);
    assert_eq!(emu.memory(0x300), 2);
    assert_eq!(emu.memory(0x301), 5);
    assert_eq!(emu.memory(0x302), 4);
    assert_eq!(emu.memory(0x303), 0);
    advance(&mut emu, 3);
    assert_eq!(emu.memory(0x310), 0);
    assert_eq!(emu.memory(0x311), 0);
    assert_eq!(emu.memory(0x312), 7);
    assert_eq!(emu.index(), 0x310);
}

#[test]
fn store_writes_registers_zero_to_x() {
    let mut emu = loaded(&[0x60, 0x11, 0x61, 0x22, 0x62, 0x33, 0x63, 0x44, 0xA3, 0x00, 0xF2, 0x55]);
    advance(&mut emu, 6);
    assert_eq!(emu.memory(0x2FF), 0);
    assert_eq!(emu.memory(0x300), 0x11);
    assert_eq!(emu.memory(0x301), 0x22);
    assert_eq!(emu.memory(0x302), 0x33);
    assert_eq!(emu.memory(0x303), 0);
    assert_eq!(emu.index(), 0x300);
}

#[test]
fn load_reads_registers_zero_to_x() {
    // I = 0 (glyph table), load V0..V2
    let mut emu = loaded(&[0x63, 0x44, 0xA0, 0x00, 0xF2, 0x65]);
    advance(&mut emu, 3);
    assert_eq!(emu.register(0), 0xF0);
    assert_eq!(emu.register(1), 0x90);
    assert_eq!(emu.register(2), 0x90);
    assert_eq!(emu.register(3), 0x44);
    assert_eq!(emu.index(), 0);
}

#[test]
fn store_and_load_reach_the_last_byte_of_memory() {
    // I = 0xFFF, store V0, then V0 = 0, load V0
    let mut emu = loaded(&[0x60, 0x5A, 0xAF, 0xFF, 0xF0, 0x55, 0x60, 0x00, 0xF0, 0x65]);
    advance(&mut emu, 3);
    assert_eq!(emu.memory(0xFFF), 0x5A);
    advance(&mut emu, 2);
    assert_eq!(emu.register(0), 0x5A);
}

#[test]
fn unknown_words_are_decode_faults() {
    for word in [
        0x0001u16, 0x00E1, 0x00EF, 0x0123, 0x5001, 0x500F, 0x8008, 0x800D, 0x800F, 0x9001,
        0xE000, 0xE09F, 0xE0A0, 0xF000, 0xF008, 0xF016, 0xF030, 0xF056, 0xF066, 0xF0FF,
    ] {
        let mut emu = loaded(&[(word >> 8) as u8, (word & 0xFF) as u8]);
        assert_eq!(emu.tick(), Err(Fault::UnknownInstruction { op: word, pc: 0x200 }));
        assert_eq!(emu.pc(), 0x200);
    }
}

#[test]
fn return_on_empty_stack_is_a_stack_fault() {
    let mut emu = loaded(&[0x00, 0xEE]);
    assert_eq!(emu.tick(), Err(Fault::Stack { op: 0x00EE, pc: 0x200 }));
    assert_eq!(emu.pc(), 0x200);
    assert_eq!(emu.stack_depth(), 0);
}

#[test]
fn seventeenth_call_is_a_stack_fault() {
    let mut emu = loaded(&[0x22, 0x00]);
    advance(&mut emu, 16);
    assert_eq!(emu.stack_depth(), 16);
    assert_eq!(emu.tick(), Err(Fault::Stack { op: 0x2200, pc: 0x200 }));
    assert_eq!(emu.stack_depth(), 16);
    assert_eq!(emu.pc(), 0x200);
}

#[test]
fn program_counter_outside_memory_is_a_fault() {
    let mut emu = loaded(&[0x1F, 0xFF]);
    advance(&mut emu, 1);
    assert_eq!(emu.tick(), Err(Fault::ProgramCounter { pc: 0xFFF }));
    assert_eq!(emu.pc(), 0xFFF);
    // the last word of memory can still be fetched
    let mut emu = loaded(&[0x1F, 0xFE]);
    advance(&mut emu, 2);
    assert_eq!(emu.pc(), 0x1000);
    assert_eq!(emu.tick(), Err(Fault::ProgramCounter { pc: 0x1000 }));
}

#[test]
fn memory_instructions_beyond_the_end_are_faults() {
    // decimal digits need I + 2 inside memory
    let mut emu = loaded(&[0xAF, 0xFE, 0xF0, 0x33]);
    advance(&mut emu, 1);
    assert_eq!(emu.tick(), Err(Fault::Memory { op: 0xF033, pc: 0x202 }));
    assert_eq!(emu.pc(), 0x202);
    let mut emu = loaded(&[0xAF, 0xFD, 0xF0, 0x33]);
    advance(&mut emu, 2);
    // store and load of V0..V1 need I + 1 inside memory
    let mut emu = loaded(&[0xAF, 0xFF, 0xF1, 0x55]);
    advance(&mut emu, 1);
    assert_eq!(emu.tick(), Err(Fault::Memory { op: 0xF155, pc: 0x202 }));
    let mut emu = loaded(&[0xAF, 0xFF, 0xF1, 0x65]);
    advance(&mut emu, 1);
    assert_eq!(emu.tick(), Err(Fault::Memory { op: 0xF165, pc: 0x202 }));
    assert_eq!(emu.register(0), 0);
    // a sprite's rows must lie inside memory
    let mut emu = loaded(&[0xAF, 0xFF, 0xD0, 0x02]);
    advance(&mut emu, 1);
    assert_eq!(emu.tick(), Err(Fault::Memory { op: 0xD002, pc: 0x202 }));
    let mut emu = loaded(&[0xAF, 0xFF, 0xD0, 0x01]);
    advance(&mut emu, 2);
}

#[test]
fn key_index_beyond_the_keypad_is_a_fault() {
    let mut emu = loaded(&[0x61, 0x10, 0xE1, 0x9E]);
    advance(&mut emu, 1);
    assert_eq!(emu.tick(), Err(Fault::Keypad { op: 0xE19E, pc: 0x202 }));
    let mut emu = loaded(&[0x61, 0xFF, 0xE1, 0xA1]);
    advance(&mut emu, 1);
    assert_eq!(emu.tick(), Err(Fault::Keypad { op: 0xE1A1, pc: 0x202 }));
    assert_eq!(emu.pc(), 0x202);
}

#[test]
fn a_fault_repeats_on_every_further_tick() {
    let mut emu = loaded(&[0x60, 0x01, 0xFF, 0xFF]);
    advance(&mut emu, 1);
    for _ in 0..3 {
        assert_eq!(emu.tick(), Err(Fault::UnknownInstruction { op: 0xFFFF, pc: 0x202 }));
        assert_eq!(emu.register(0), 1);
        assert_eq!(emu.pc(), 0x202);
    }
}
