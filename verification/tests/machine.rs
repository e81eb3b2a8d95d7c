//! Whole-machine tests: construction, ROM loading, the remaining
//! instructions, the fault conditions, sprite drawing, the key-wait
//! state and the timers.

use chip8::CPU;
use chip8::Fault;
use chip8::Wait;

fn testing_cpu(first_byte: u8, second_byte: u8) -> CPU {
    let mut cpu = CPU::new();
    cpu.memory[0x200] = first_byte;
    cpu.memory[0x201] = second_byte;
    cpu
}

#[test]
fn test_new_machine() {
    let cpu = CPU::new();
    assert_eq!(cpu.pc, 0x200);
    assert_eq!(cpu.sp, 0);
    assert_eq!(cpu.i, 0);
    assert_eq!(cpu.memory.len(), 4096);
    // Glyph table: first row of "0", last row of "F", then zeroes.
    assert_eq!(cpu.memory[0], 0xF0);
    assert_eq!(cpu.memory[79], 0x80);
    assert_eq!(cpu.memory[80], 0);
    assert_eq!(cpu.memory[0x200], 0);
    assert!(cpu.graphics.iter().all(|&p| p == 0));
    assert!(cpu.v.iter().all(|&r| r == 0));
    assert_eq!(cpu.wait, Wait::Running);
}

#[test]
fn test_load_rom() {
    let mut cpu = CPU::new();
    cpu.load(&[0x12, 0x34, 0x56]);
    assert_eq!(cpu.memory[0x200], 0x12);
    assert_eq!(cpu.memory[0x201], 0x34);
    assert_eq!(cpu.memory[0x202], 0x56);
    assert_eq!(cpu.memory[0x203], 0);
    // The glyph table is untouched.
    assert_eq!(cpu.memory[0], 0xF0);
}

#[test]
fn test_load_rom_largest() {
    let mut cpu = CPU::new();
    let rom = vec![0xAB; 3584];
    cpu.load(&rom);
    assert_eq!(cpu.memory[0x200], 0xAB);
    assert_eq!(cpu.memory[4095], 0xAB);
    let mut empty = CPU::new();
    empty.load(&[]);
    assert_eq!(empty.memory[0x200], 0);
}

#[test]
fn test_8xy5_sub() {
    // No borrow: 5 - 3 leaves 2 and sets the flag.
    let mut cpu = testing_cpu(0x80, 0x15);
    cpu.v[0] = 5;
    cpu.v[1] = 3;
    let _ = cpu.emulate_cycle();
    assert_eq!(cpu.v[0], 2);
    assert_eq!(cpu.v[0xF], 1);
    // Borrow: 3 - 5 wraps to 254 and clears the flag.
    let mut cpu1 = testing_cpu(0x80, 0x15);
    cpu1.v[0] = 3;
    cpu1.v[1] = 5;
    let _ = cpu1.emulate_cycle();
    assert_eq!(cpu1.v[0], 254);
    assert_eq!(cpu1.v[0xF], 0);
    // Equal operands: no borrow.
    let mut cpu2 = testing_cpu(0x80, 0x15);
    cpu2.v[0] = 9;
    cpu2.v[1] = 9;
    let _ = cpu2.emulate_cycle();
    assert_eq!(cpu2.v[0], 0);
    assert_eq!(cpu2.v[0xF], 1);
}

#[test]
fn test_8xy6_shift_right() {
    let mut cpu = testing_cpu(0x80, 0x06);
    cpu.v[0] = 0x05;
    let _ = cpu.emulate_cycle();
    assert_eq!(cpu.v[0], 0x02);
    assert_eq!(cpu.v[0xF], 1);
}

#[test]
fn test_8xy7_subn() {
    let mut cpu = testing_cpu(0x80, 0x17);
    cpu.v[0] = 3;
    cpu.v[1] = 5;
    let _ = cpu.emulate_cycle();
    assert_eq!(cpu.v[0], 2);
    assert_eq!(cpu.v[0xF], 1);
    let mut cpu1 = testing_cpu(0x80, 0x17);
    cpu1.v[0] = 5;
    cpu1.v[1] = 3;
    let _ = cpu1.emulate_cycle();
    assert_eq!(cpu1.v[0], 254);
    assert_eq!(cpu1.v[0xF], 0);
}

#[test]
fn test_8xye_shift_left() {
    let mut cpu = testing_cpu(0x80, 0x0E);
    cpu.v[0] = 0x81;
    let _ = cpu.emulate_cycle();
    assert_eq!(cpu.v[0], 0x02);
    assert_eq!(cpu.v[0xF], 1);
}

#[test]
fn test_9xy0_skip_neq_reg() {
    let mut cpu = testing_cpu(0x90, 0x10);
    cpu.v[0] = 1;
    cpu.v[1] = 2;
    let _ = cpu.emulate_cycle();
    assert_eq!(cpu.pc, 0x204);
    let mut cpu1 = testing_cpu(0x90, 0x10);
    let _ = cpu1.emulate_cycle();
    assert_eq!(cpu1.pc, 0x202);
}

#[test]
fn test_annn_load_addr() {
    let mut cpu = testing_cpu(0xA1, 0x23);
    let _ = cpu.emulate_cycle();
    assert_eq!(cpu.i, 0x123);
    assert_eq!(cpu.pc, 0x202);
}

#[test]
fn test_bnnn_jump_offset() {
    let mut cpu = testing_cpu(0xB2, 0x34);
    cpu.v[0] = 0x10;
    let _ = cpu.emulate_cycle();
    assert_eq!(cpu.pc, 0x244);
}

#[test]
fn test_cxkk_random_masked() {
    // A zero mask pins the result whatever byte was drawn.
    let mut cpu = testing_cpu(0xC5, 0x00);
    cpu.v[5] = 0x77;
    let _ = cpu.emulate_cycle();
    assert_eq!(cpu.v[5], 0);
    assert_eq!(cpu.pc, 0x202);
    // Any drawn byte stays within the mask.
    let mut cpu1 = testing_cpu(0xC5, 0x0F);
    let _ = cpu1.emulate_cycle();
    assert!(cpu1.v[5] <= 0x0F);
}

#[test]
fn test_dxyn_draw_glyph() {
    // Draw the one-row sprite 0xF0 read at i = 0 (top row of glyph "0")
    // at origin (0, 0): columns 0..4 light up, no collision.
    let mut cpu = testing_cpu(0xD0, 0x11);
    cpu.i = 0;
    let _ = cpu.emulate_cycle();
    for col in 0..4 {
        assert_eq!(cpu.graphics[col], 1);
    }
    for col in 4..8 {
        assert_eq!(cpu.graphics[col], 0);
    }
    assert_eq!(cpu.v[0xF], 0);
    assert_eq!(cpu.pc, 0x202);
}

#[test]
fn test_dxyn_draw_twice_erases() {
    let mut cpu = testing_cpu(0xD0, 0x15);
    cpu.memory[0x202] = 0xD0;
    cpu.memory[0x203] = 0x15;
    cpu.i = 0;
    let _ = cpu.emulate_cycle();
    assert_eq!(cpu.v[0xF], 0);
    assert!(cpu.graphics.iter().any(|&p| p == 1));
    let _ = cpu.emulate_cycle();
    // The second identical draw collides everywhere it drew and
    // restores every pixel.
    assert_eq!(cpu.v[0xF], 1);
    assert!(cpu.graphics.iter().all(|&p| p == 0));
    assert_eq!(cpu.pc, 0x204);
}

#[test]
fn test_dxyn_draw_wraps() {
    // One row 0xF0 at origin (62, 31): wraps to columns 62, 63, 0, 1 of
    // the last row.
    let mut cpu = testing_cpu(0xD0, 0x11);
    cpu.i = 0;
    cpu.v[0] = 62;
    cpu.v[1] = 31;
    let _ = cpu.emulate_cycle();
    assert_eq!(cpu.graphics[31 * 64 + 62], 1);
    assert_eq!(cpu.graphics[31 * 64 + 63], 1);
    assert_eq!(cpu.graphics[31 * 64 + 0], 1);
    assert_eq!(cpu.graphics[31 * 64 + 1], 1);
    assert_eq!(cpu.graphics[31 * 64 + 2], 0);
}

#[test]
fn test_dxyn_draw_zero_rows() {
    let mut cpu = testing_cpu(0xD0, 0x10);
    cpu.v[0xF] = 1;
    let _ = cpu.emulate_cycle();
    assert!(cpu.graphics.iter().all(|&p| p == 0));
    assert_eq!(cpu.v[0xF], 0);
    assert_eq!(cpu.pc, 0x202);
}

#[test]
fn test_ex9e_skip_key() {
    let mut cpu = testing_cpu(0xE2, 0x9E);
    cpu.v[2] = 7;
    cpu.keypad[7] = true;
    let _ = cpu.emulate_cycle();
    assert_eq!(cpu.pc, 0x204);
    let mut cpu1 = testing_cpu(0xE2, 0x9E);
    cpu1.v[2] = 7;
    let _ = cpu1.emulate_cycle();
    assert_eq!(cpu1.pc, 0x202);
}

#[test]
fn test_exa1_skip_not_key() {
    let mut cpu = testing_cpu(0xE2, 0xA1);
    cpu.v[2] = 7;
    let _ = cpu.emulate_cycle();
    assert_eq!(cpu.pc, 0x204);
    let mut cpu1 = testing_cpu(0xE2, 0xA1);
    cpu1.v[2] = 7;
    cpu1.keypad[7] = true;
    let _ = cpu1.emulate_cycle();
    assert_eq!(cpu1.pc, 0x202);
}

#[test]
fn test_fx07_load_delay() {
    let mut cpu = testing_cpu(0xF4, 0x07);
    cpu.delay_timer = 42;
    let _ = cpu.emulate_cycle();
    assert_eq!(cpu.v[4], 42);
}

#[test]
fn test_fx15_fx18_set_timers() {
    let mut cpu = testing_cpu(0xF4, 0x15);
    cpu.memory[0x202] = 0xF5;
    cpu.memory[0x203] = 0x18;
    cpu.v[4] = 30;
    cpu.v[5] = 12;
    let _ = cpu.emulate_cycle();
    assert_eq!(cpu.delay_timer, 30);
    let _ = cpu.emulate_cycle();
    assert_eq!(cpu.sound_timer, 12);
}

#[test]
fn test_fx1e_add_addr() {
    let mut cpu = testing_cpu(0xF0, 0x1E);
    cpu.i = 0xFFF0;
    cpu.v[0] = 0x20;
    let _ = cpu.emulate_cycle();
    // The address register adds in 16 bits.
    assert_eq!(cpu.i, 0x10);
}

#[test]
fn test_fx29_font_addr() {
    let mut cpu = testing_cpu(0xF5, 0x29);
    cpu.v[5] = 0xA;
    let _ = cpu.emulate_cycle();
    assert_eq!(cpu.i, 50);
    // The glyph rows for "A" sit there.
    assert_eq!(cpu.memory[cpu.i], 0xF0);
}

#[test]
fn test_fx33_store_bcd() {
    let mut cpu = testing_cpu(0xF4, 0x33);
    cpu.v[4] = 234;
    cpu.i = 0x300;
    let _ = cpu.emulate_cycle();
    assert_eq!(cpu.memory[0x300], 2);
    assert_eq!(cpu.memory[0x301], 3);
    assert_eq!(cpu.memory[0x302], 4);
    assert_eq!(cpu.pc, 0x202);
}

#[test]
fn test_fx55_fx65_store_load_regs() {
    let mut cpu = testing_cpu(0xF2, 0x55);
    cpu.v[0] = 0x11;
    cpu.v[1] = 0x22;
    cpu.v[2] = 0x33;
    cpu.v[3] = 0x44;
    cpu.i = 0x300;
    let _ = cpu.emulate_cycle();
    assert_eq!(cpu.memory[0x300], 0x11);
    assert_eq!(cpu.memory[0x301], 0x22);
    assert_eq!(cpu.memory[0x302], 0x33);
    // Only v[0..=2] were stored.
    assert_eq!(cpu.memory[0x303], 0);
    let mut cpu1 = testing_cpu(0xF2, 0x65);
    cpu1.memory[0x300] = 0xAA;
    cpu1.memory[0x301] = 0xBB;
    cpu1.memory[0x302] = 0xCC;
    cpu1.v[3] = 0x99;
    cpu1.i = 0x300;
    let _ = cpu1.emulate_cycle();
    assert_eq!(cpu1.v[0], 0xAA);
    assert_eq!(cpu1.v[1], 0xBB);
    assert_eq!(cpu1.v[2], 0xCC);
    // Registers past x are untouched.
    assert_eq!(cpu1.v[3], 0x99);
}

#[test]
fn test_unrecognized_word_is_noop() {
    // 8xy8 matches no pattern: only the program counter moves.
    let mut cpu = testing_cpu(0x80, 0x18);
    cpu.v[0] = 7;
    cpu.v[1] = 9;
    let r = cpu.emulate_cycle();
    assert!(r.is_ok());
    assert_eq!(cpu.v[0], 7);
    assert_eq!(cpu.v[1], 9);
    assert_eq!(cpu.pc, 0x202);
    // A class-0 word other than clear/return behaves the same.
    let mut cpu1 = testing_cpu(0x01, 0x23);
    let r1 = cpu1.emulate_cycle();
    assert!(r1.is_ok());
    assert_eq!(cpu1.pc, 0x202);
}

#[test]
fn test_stack_overflow_fault() {
    let mut cpu = testing_cpu(0x23, 0x00);
    cpu.sp = 16;
    let r = cpu.emulate_cycle();
    assert_eq!(r, Err(Fault::StackOverflow));
    // The faulting instruction had no effect.
    assert_eq!(cpu.pc, 0x200);
    assert_eq!(cpu.sp, 16);
}

#[test]
fn test_stack_underflow_fault() {
    let mut cpu = testing_cpu(0x00, 0xEE);
    let r = cpu.emulate_cycle();
    assert_eq!(r, Err(Fault::StackUnderflow));
    assert_eq!(cpu.pc, 0x200);
    assert_eq!(cpu.sp, 0);
}

#[test]
fn test_fetch_out_of_range_fault() {
    let mut cpu = CPU::new();
    cpu.pc = 4095;
    let r = cpu.emulate_cycle();
    assert_eq!(r, Err(Fault::AddressOutOfRange));
    assert_eq!(cpu.pc, 4095);
}

#[test]
fn test_bcd_out_of_range_fault() {
    let mut cpu = testing_cpu(0xF4, 0x33);
    cpu.v[4] = 99;
    cpu.i = 4094;
    let r = cpu.emulate_cycle();
    assert_eq!(r, Err(Fault::AddressOutOfRange));
    assert_eq!(cpu.memory[4094], 0);
    assert_eq!(cpu.pc, 0x200);
}

#[test]
fn test_draw_out_of_range_fault() {
    let mut cpu = testing_cpu(0xD0, 0x12);
    cpu.i = 4095;
    let r = cpu.emulate_cycle();
    assert_eq!(r, Err(Fault::AddressOutOfRange));
    assert!(cpu.graphics.iter().all(|&p| p == 0));
}

#[test]
fn test_store_regs_out_of_range_fault() {
    let mut cpu = testing_cpu(0xF3, 0x55);
    cpu.i = 4093;
    let r = cpu.emulate_cycle();
    assert_eq!(r, Err(Fault::AddressOutOfRange));
}

#[test]
fn test_call_then_return_restores_pc() {
    // call 0x204, then return: the counter lands on 0x202, the address
    // right after the call.
    let mut cpu = testing_cpu(0x22, 0x04);
    cpu.memory[0x204] = 0x00;
    cpu.memory[0x205] = 0xEE;
    let _ = cpu.emulate_cycle();
    assert_eq!(cpu.pc, 0x204);
    let _ = cpu.emulate_cycle();
    assert_eq!(cpu.pc, 0x202);
    assert_eq!(cpu.sp, 0);
}

#[test]
fn test_fx0a_wait_key() {
    // Wait on register 3; a later press of key 7 lands there.
    let mut cpu = testing_cpu(0xF3, 0x0A);
    let _ = cpu.emulate_cycle();
    assert_eq!(cpu.wait, Wait::AwaitingKey { target: 3 });
    assert_eq!(cpu.pc, 0x202);
    // No key pressed: the machine only waits.
    let _ = cpu.emulate_cycle();
    assert_eq!(cpu.wait, Wait::AwaitingKey { target: 3 });
    assert_eq!(cpu.v[3], 0);
    assert_eq!(cpu.pc, 0x202);
    // The press edge resolves the wait on the next processed cycle.
    cpu.set_key(7, true);
    let _ = cpu.emulate_cycle();
    assert_eq!(cpu.v[3], 7);
    assert_eq!(cpu.wait, Wait::Running);
    assert_eq!(cpu.pc, 0x202);
}

#[test]
fn test_fx0a_wait_key_needs_edge() {
    // A key already held when the wait begins is not a press edge; it
    // must be released and pressed again.
    let mut cpu = testing_cpu(0xF3, 0x0A);
    cpu.set_key(5, true);
    let _ = cpu.emulate_cycle();
    assert_eq!(cpu.wait, Wait::AwaitingKey { target: 3 });
    let _ = cpu.emulate_cycle();
    assert_eq!(cpu.wait, Wait::AwaitingKey { target: 3 });
    cpu.set_key(5, false);
    let _ = cpu.emulate_cycle();
    cpu.set_key(5, true);
    let _ = cpu.emulate_cycle();
    assert_eq!(cpu.v[3], 5);
    assert_eq!(cpu.wait, Wait::Running);
}

#[test]
fn test_update_timers() {
    let mut cpu = CPU::new();
    cpu.delay_timer = 2;
    cpu.sound_timer = 0;
    cpu.update_timers();
    assert_eq!(cpu.delay_timer, 1);
    assert_eq!(cpu.sound_timer, 0);
    cpu.update_timers();
    cpu.update_timers();
    // Timers stop at zero.
    assert_eq!(cpu.delay_timer, 0);
}
