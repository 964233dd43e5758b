//! Tests of the fetch-decode-execute engine, opcode by opcode, and the
//! end-to-end scenarios.

use chip8::error::Chip8Error;
use chip8::machine::{ExecState, Machine};

/// Builds a machine with `prog` loaded at 0x200.
fn boot(prog: &[u8]) -> Machine {
    let mut m = Machine::new();
    assert_eq!(m.load_program(prog), Ok(()));
    m
}

#[test]
fn add_immediate_wraps_and_leaves_vf_alone() {
    // V3 = 0xFF; V3 += 0x02 wraps to 0x01 and raises nothing
    let mut m = boot(&[0x63, 0xFF, 0x73, 0x02]);
    assert_eq!(m.step(), Ok(()));
    assert_eq!(m.step(), Ok(()));
    assert_eq!(m.cpu.v[3], 0x01);
    assert_eq!(m.cpu.v[15], 0);
    assert_eq!(m.cpu.pc, 0x204);
}

#[test]
fn add_registers_sets_carry_iff_sum_exceeds_255() {
    // VA = 0xFF; VB = 0x01; VA += VB -> 0x00 carry 1
    let mut m = boot(&[0x6A, 0xFF, 0x6B, 0x01, 0x8A, 0xB4]);
    for _ in 0..3 {
        assert_eq!(m.step(), Ok(()));
    }
    assert_eq!(m.cpu.v[0xA], 0x00);
    assert_eq!(m.cpu.v[0xF], 1);

    // 0x70 + 0x20 stays under 256: carry 0
    let mut m2 = boot(&[0x6A, 0x70, 0x6B, 0x20, 0x8A, 0xB4]);
    for _ in 0..3 {
        assert_eq!(m2.step(), Ok(()));
    }
    assert_eq!(m2.cpu.v[0xA], 0x90);
    assert_eq!(m2.cpu.v[0xF], 0);
}

#[test]
fn independent_register_mutation_has_no_stray_carry() {
    // V0 = 5; V1 = 3; V0 += V1 -> 8, VF = 0; then V0 = 0xA, V1 = 5
    let mut m = boot(&[0x60, 0x05, 0x61, 0x03, 0x80, 0x14, 0x60, 0x0A, 0x61, 0x05]);
    for _ in 0..3 {
        assert_eq!(m.step(), Ok(()));
    }
    assert_eq!(m.cpu.v[0], 8);
    assert_eq!(m.cpu.v[1], 3);
    assert_eq!(m.cpu.v[15], 0);
    assert_eq!(m.step(), Ok(()));
    assert_eq!(m.step(), Ok(()));
    assert_eq!(m.cpu.v[0], 0x0A);
    assert_eq!(m.cpu.v[1], 0x05);
    assert_eq!(m.cpu.v[15], 0);
}

#[test]
fn clear_then_draw_single_byte_sets_leftmost_pixels() {
    // 00E0; A206 (I = 0x206); D011 (1-row sprite at (V0, V1)); data 0xF0
    let mut m = boot(&[0x00, 0xE0, 0xA2, 0x06, 0xD0, 0x11, 0xF0]);
    for _ in 0..3 {
        assert_eq!(m.step(), Ok(()));
    }
    for cx in 0..4 {
        assert!(m.display.pixel(cx, 0));
    }
    for cx in 4..64 {
        assert!(!m.display.pixel(cx, 0));
    }
    assert_eq!(m.cpu.v[0xF], 0);
    assert!(m.display.is_dirty());
}

#[test]
fn drawing_font_glyph_twice_restores_blank_screen() {
    // A050 (I = font glyph 0); D015 twice
    let mut m = boot(&[0xA0, 0x50, 0xD0, 0x15, 0xD0, 0x15]);
    assert_eq!(m.step(), Ok(()));
    assert_eq!(m.step(), Ok(()));
    // first draw on a blank screen reports no collision
    assert_eq!(m.cpu.v[0xF], 0);
    assert!(m.display.pixel(0, 0));
    assert_eq!(m.step(), Ok(()));
    // the second, identical draw collides and clears everything it set
    assert_eq!(m.cpu.v[0xF], 1);
    for cx in 0..64 {
        for cy in 0..32 {
            assert!(!m.display.pixel(cx, cy));
        }
    }
}

#[test]
fn jump_sets_pc() {
    let mut m = boot(&[0x12, 0x34]);
    assert_eq!(m.step(), Ok(()));
    assert_eq!(m.cpu.pc, 0x234);
}

#[test]
fn call_and_return_use_the_stack() {
    // 0x200: call 0x206; 0x206: return
    let mut m = boot(&[0x22, 0x06, 0x00, 0x00, 0x00, 0x00, 0x00, 0xEE]);
    assert_eq!(m.step(), Ok(()));
    assert_eq!(m.cpu.pc, 0x206);
    assert_eq!(m.cpu.sp, 1);
    assert_eq!(m.cpu.stack[0], 0x202);
    assert_eq!(m.step(), Ok(()));
    assert_eq!(m.cpu.pc, 0x202);
    assert_eq!(m.cpu.sp, 0);
}

#[test]
fn return_with_empty_stack_underflows_and_changes_nothing() {
    let mut m = boot(&[0x00, 0xEE]);
    assert_eq!(m.step(), Err(Chip8Error::StackUnderflow));
    assert_eq!(m.cpu.pc, 0x200);
    assert_eq!(m.cpu.sp, 0);
}

#[test]
fn skip_if_equal_immediate() {
    // V4 = 7; skip if V4 == 7 (taken); skip if V4 == 8 (not taken)
    let mut m = boot(&[0x64, 0x07, 0x34, 0x07]);
    assert_eq!(m.step(), Ok(()));
    assert_eq!(m.step(), Ok(()));
    assert_eq!(m.cpu.pc, 0x206);
    let mut m2 = boot(&[0x64, 0x07, 0x34, 0x08]);
    assert_eq!(m2.step(), Ok(()));
    assert_eq!(m2.step(), Ok(()));
    assert_eq!(m2.cpu.pc, 0x204);
}

#[test]
fn skip_if_not_equal_immediate() {
    let mut m = boot(&[0x64, 0x07, 0x44, 0x08]);
    assert_eq!(m.step(), Ok(()));
    assert_eq!(m.step(), Ok(()));
    assert_eq!(m.cpu.pc, 0x206);
}

#[test]
fn skip_on_register_compare() {
    // V1 = 9, V2 = 9: 5xy0 skips, then 9xy0 does not
    let mut m = boot(&[0x61, 0x09, 0x62, 0x09, 0x51, 0x20, 0x00, 0x00, 0x91, 0x20]);
    for _ in 0..3 {
        assert_eq!(m.step(), Ok(()));
    }
    assert_eq!(m.cpu.pc, 0x208);
    assert_eq!(m.step(), Ok(()));
    assert_eq!(m.cpu.pc, 0x20A);
}

#[test]
fn alu_moves_and_bitwise_ops() {
    // V0 = 0xCC, V1 = 0xAA; then OR, AND, XOR, MOV with fresh pairs
    let mut m = boot(&[
        0x60, 0xCC, 0x61, 0xAA, 0x80, 0x11, // V0 |= V1
    ]);
    for _ in 0..3 {
        assert_eq!(m.step(), Ok(()));
    }
    assert_eq!(m.cpu.v[0], 0xCC | 0xAA);

    let mut m2 = boot(&[0x60, 0xCC, 0x61, 0xAA, 0x80, 0x12]);
    for _ in 0..3 {
        assert_eq!(m2.step(), Ok(()));
    }
    assert_eq!(m2.cpu.v[0], 0xCC & 0xAA);

    let mut m3 = boot(&[0x60, 0xCC, 0x61, 0xAA, 0x80, 0x13]);
    for _ in 0..3 {
        assert_eq!(m3.step(), Ok(()));
    }
    assert_eq!(m3.cpu.v[0], 0xCC ^ 0xAA);

    let mut m4 = boot(&[0x61, 0x5A, 0x80, 0x10]);
    assert_eq!(m4.step(), Ok(()));
    assert_eq!(m4.step(), Ok(()));
    assert_eq!(m4.cpu.v[0], 0x5A);
}

#[test]
fn subtract_sets_not_borrow_flag() {
    // V0 = 5, V1 = 7: V0 -= V1 wraps to 254, VF = 0 (borrow)
    let mut m = boot(&[0x60, 0x05, 0x61, 0x07, 0x80, 0x15]);
    for _ in 0..3 {
        assert_eq!(m.step(), Ok(()));
    }
    assert_eq!(m.cpu.v[0], 254);
    assert_eq!(m.cpu.v[0xF], 0);

    // V0 = 9, V1 = 7: V0 -= V1 = 2, VF = 1 (no borrow)
    let mut m2 = boot(&[0x60, 0x09, 0x61, 0x07, 0x80, 0x15]);
    for _ in 0..3 {
        assert_eq!(m2.step(), Ok(()));
    }
    assert_eq!(m2.cpu.v[0], 2);
    assert_eq!(m2.cpu.v[0xF], 1);

    // SUBN: V0 = V1 - V0 with V0 = 7, V1 = 9 -> 2, VF = 1
    let mut m3 = boot(&[0x60, 0x07, 0x61, 0x09, 0x80, 0x17]);
    for _ in 0..3 {
        assert_eq!(m3.step(), Ok(()));
    }
    assert_eq!(m3.cpu.v[0], 2);
    assert_eq!(m3.cpu.v[0xF], 1);
}

#[test]
fn shifts_report_the_moved_out_bit() {
    // SHR: V0 = 0x05 -> 0x02, VF = 1
    let mut m = boot(&[0x60, 0x05, 0x80, 0x06]);
    assert_eq!(m.step(), Ok(()));
    assert_eq!(m.step(), Ok(()));
    assert_eq!(m.cpu.v[0], 0x02);
    assert_eq!(m.cpu.v[0xF], 1);

    // SHL: V0 = 0x81 -> 0x02, VF = 1
    let mut m2 = boot(&[0x60, 0x81, 0x80, 0x0E]);
    assert_eq!(m2.step(), Ok(()));
    assert_eq!(m2.step(), Ok(()));
    assert_eq!(m2.cpu.v[0], 0x02);
    assert_eq!(m2.cpu.v[0xF], 1);
}

#[test]
fn load_address_and_indexed_jump() {
    let mut m = boot(&[0xA1, 0x23]);
    assert_eq!(m.step(), Ok(()));
    assert_eq!(m.cpu.i, 0x123);

    // B204 with V0 = 2 jumps to 0x206
    let mut m2 = boot(&[0x60, 0x02, 0xB2, 0x04]);
    assert_eq!(m2.step(), Ok(()));
    assert_eq!(m2.step(), Ok(()));
    assert_eq!(m2.cpu.pc, 0x206);
}

#[test]
fn random_masks_with_kk_and_is_deterministic_for_a_seed() {
    // with the state seeded to 0 the first drawn byte is 0x36
    let mut m = boot(&[0xC0, 0xFF, 0xC1, 0x00]);
    m.seed_rng(0);
    assert_eq!(m.step(), Ok(()));
    assert_eq!(m.cpu.v[0], 0x36);
    // AND with 0 is always 0, whatever was drawn
    assert_eq!(m.step(), Ok(()));
    assert_eq!(m.cpu.v[1], 0x00);
}

#[test]
fn key_skips_consult_the_latch() {
    // E59E: skip if key V5 pressed; E5A1: skip if not pressed
    let mut m = boot(&[0x65, 0x07, 0xE5, 0x9E, 0x00, 0x00, 0xE5, 0xA1]);
    m.set_key(7, true);
    assert_eq!(m.step(), Ok(()));
    assert_eq!(m.step(), Ok(()));
    assert_eq!(m.cpu.pc, 0x206);
    assert_eq!(m.step(), Ok(()));
    // key still pressed: ExA1 does not skip
    assert_eq!(m.cpu.pc, 0x208);
}

#[test]
fn key_wait_suspends_until_a_key_arrives() {
    let mut m = boot(&[0xF5, 0x0A, 0x00, 0x00]);
    assert_eq!(m.step(), Ok(()));
    assert_eq!(m.state, ExecState::WaitingForKey(5));
    let pc_after = m.cpu.pc;
    // no key: the machine stays put
    assert_eq!(m.step(), Ok(()));
    assert_eq!(m.state, ExecState::WaitingForKey(5));
    assert_eq!(m.cpu.pc, pc_after);
    // a key arrives: it lands in V5 and the machine runs on
    m.set_key(0xB, true);
    assert_eq!(m.step(), Ok(()));
    assert_eq!(m.state, ExecState::Running);
    assert_eq!(m.cpu.v[5], 0xB);
    assert_eq!(m.cpu.pc, pc_after);
}

#[test]
fn timer_opcodes_move_values_both_ways() {
    // V0 = 0x21; delay = V0; sound = V0; V1 = delay
    let mut m = boot(&[0x60, 0x21, 0xF0, 0x15, 0xF0, 0x18, 0xF1, 0x07]);
    for _ in 0..4 {
        assert_eq!(m.step(), Ok(()));
    }
    assert_eq!(m.cpu.delay_timer, 0x21);
    assert_eq!(m.cpu.sound_timer, 0x21);
    assert_eq!(m.cpu.v[1], 0x21);
}

#[test]
fn machine_tick_decrements_independently_of_steps() {
    let mut m = boot(&[0x60, 0x05, 0xF0, 0x15]);
    assert_eq!(m.step(), Ok(()));
    assert_eq!(m.step(), Ok(()));
    assert_eq!(m.cpu.delay_timer, 5);
    m.tick();
    m.tick();
    assert_eq!(m.cpu.delay_timer, 3);
    assert_eq!(m.cpu.sound_timer, 0);
}

#[test]
fn add_to_address_register_wraps_at_sixteen_bits() {
    let mut m = boot(&[0x60, 0x02, 0xF0, 0x1E]);
    assert_eq!(m.step(), Ok(()));
    m.cpu.i = 0xFFFF;
    assert_eq!(m.step(), Ok(()));
    assert_eq!(m.cpu.i, 0x0001);
}

#[test]
fn font_address_opcode_points_at_the_glyph() {
    let mut m = boot(&[0x60, 0x0A, 0xF0, 0x29]);
    assert_eq!(m.step(), Ok(()));
    assert_eq!(m.step(), Ok(()));
    assert_eq!(m.cpu.i, 0x50 + 5 * 0x0A);
    // the glyph under I is the font pattern for hexadecimal A
    assert_eq!(m.memory.read_byte(m.cpu.i), Ok(0xF0));
    assert_eq!(m.memory.read_byte(m.cpu.i + 1), Ok(0x90));
}

#[test]
fn bcd_writes_three_decimal_digits() {
    let mut m = boot(&[0x67, 0xFE, 0xA3, 0x00, 0xF7, 0x33]);
    for _ in 0..3 {
        assert_eq!(m.step(), Ok(()));
    }
    assert_eq!(m.memory.read_byte(0x300), Ok(2));
    assert_eq!(m.memory.read_byte(0x301), Ok(5));
    assert_eq!(m.memory.read_byte(0x302), Ok(4));
}

#[test]
fn register_dump_and_restore_roundtrip() {
    // V0..V2 = 9, 8, 7; dump V0..V2 at 0x320; clear V0..V2; restore
    let mut m = boot(&[
        0x60, 0x09, 0x61, 0x08, 0x62, 0x07, 0xA3, 0x20, 0xF2, 0x55, 0x60, 0x00, 0x61, 0x00, 0x62,
        0x00, 0xF2, 0x65,
    ]);
    for _ in 0..5 {
        assert_eq!(m.step(), Ok(()));
    }
    assert_eq!(m.memory.read_byte(0x320), Ok(9));
    assert_eq!(m.memory.read_byte(0x321), Ok(8));
    assert_eq!(m.memory.read_byte(0x322), Ok(7));
    assert_eq!(m.memory.read_byte(0x323), Ok(0));
    for _ in 0..4 {
        assert_eq!(m.step(), Ok(()));
    }
    assert_eq!(m.cpu.v[0], 9);
    assert_eq!(m.cpu.v[1], 8);
    assert_eq!(m.cpu.v[2], 7);
    // V3 was never part of the dump
    assert_eq!(m.cpu.v[3], 0);
    // I itself is left unchanged by both opcodes
    assert_eq!(m.cpu.i, 0x320);
}

#[test]
fn illegal_instruction_reports_the_word_and_changes_nothing() {
    let mut m = boot(&[0xFF, 0xFF]);
    assert_eq!(m.step(), Err(Chip8Error::IllegalInstruction(0xFFFF)));
    assert_eq!(m.cpu.pc, 0x200);
    let mut m2 = boot(&[0x00, 0x00]);
    assert_eq!(m2.step(), Err(Chip8Error::IllegalInstruction(0x0000)));
    let mut m3 = boot(&[0x51, 0x21]);
    assert_eq!(m3.step(), Err(Chip8Error::IllegalInstruction(0x5121)));
    let mut m4 = boot(&[0x80, 0x18]);
    assert_eq!(m4.step(), Err(Chip8Error::IllegalInstruction(0x8018)));
}

#[test]
fn fetch_past_end_of_memory_faults() {
    let mut m = Machine::new();
    m.cpu.pc = 4095;
    assert_eq!(m.step(), Err(Chip8Error::AddressOutOfRange));
    assert_eq!(m.cpu.pc, 4095);
}

#[test]
fn sprite_read_past_end_of_memory_faults() {
    // I = 0xFFF masked stays 0xFFF; a 2-row sprite runs past the end
    let mut m = boot(&[0xAF, 0xFF, 0xD0, 0x12]);
    assert_eq!(m.step(), Ok(()));
    assert_eq!(m.step(), Err(Chip8Error::AddressOutOfRange));
    assert_eq!(m.cpu.pc, 0x202);
}

#[test]
fn register_dump_past_end_of_memory_faults() {
    let mut m = boot(&[0xAF, 0xFE, 0xF2, 0x55]);
    assert_eq!(m.step(), Ok(()));
    assert_eq!(m.step(), Err(Chip8Error::AddressOutOfRange));
    assert_eq!(m.memory.read_byte(0xFFE), Ok(0));
}

#[test]
fn program_too_large_is_rejected_by_the_machine() {
    let mut m = Machine::new();
    let prog = vec![0u8; 4096 - 0x200 + 1];
    assert_eq!(m.load_program(&prog), Err(Chip8Error::ProgramTooLarge));
    let prog_fits = vec![0x12u8; 4096 - 0x200];
    assert_eq!(m.load_program(&prog_fits), Ok(()));
}

#[test]
fn reset_restores_construction_state() {
    let mut m = boot(&[0x63, 0x44, 0xA3, 0x00, 0xD0, 0x15]);
    for _ in 0..3 {
        assert_eq!(m.step(), Ok(()));
    }
    assert_ne!(m.cpu.pc, 0x200);
    m.reset();
    assert_eq!(m.cpu.pc, 0x200);
    assert_eq!(m.cpu.v[3], 0);
    assert_eq!(m.cpu.i, 0);
    assert_eq!(m.memory.read_byte(0x200), Ok(0));
    assert_eq!(m.memory.read_byte(0x50), Ok(0xF0));
    assert!(!m.display.is_dirty());
    assert_eq!(m.state, ExecState::Running);
}
