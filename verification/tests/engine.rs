//! Tests of the fetch-decode-execute engine through the public machine API.

use chip8::decode::{decode, Instr};
use chip8::machine::{Chip8, LoadError};
use chip8::state::{CycleOutcome, Fatal};

fn write_op(m: &mut Chip8, addr: usize, op: u16) {
    m.memory[addr] = (op >> 8) as u8;
    m.memory[addr + 1] = (op & 0xFF) as u8;
}

#[test]
fn add_with_carry_sets_flag_and_wraps() {
    let mut m = Chip8::new();
    m.v[1] = 200;
    m.v[2] = 100;
    let r = m.exec_instr(Instr::AddReg(1, 2), 0);
    assert_eq!(r, Ok(CycleOutcome::Executed));
    assert_eq!(m.v[1], 44); // (200 + 100) mod 256
    assert_eq!(m.v[15], 1);
    assert_eq!(m.pc, 0x202);

    let mut m = Chip8::new();
    m.v[1] = 1;
    m.v[2] = 2;
    m.exec_instr(Instr::AddReg(1, 2), 0).unwrap();
    assert_eq!(m.v[1], 3);
    assert_eq!(m.v[15], 0);
}

#[test]
fn subtract_sets_no_borrow_flag_and_wraps() {
    let mut m = Chip8::new();
    m.v[3] = 5;
    m.v[4] = 3;
    m.exec_instr(Instr::SubReg(3, 4), 0).unwrap();
    assert_eq!(m.v[3], 2);
    assert_eq!(m.v[15], 1); // 5 >= 3

    let mut m = Chip8::new();
    m.v[3] = 3;
    m.v[4] = 5;
    m.exec_instr(Instr::SubReg(3, 4), 0).unwrap();
    assert_eq!(m.v[3], 254); // (3 - 5) mod 256
    assert_eq!(m.v[15], 0);

    // equal operands count as no borrow
    let mut m = Chip8::new();
    m.v[3] = 7;
    m.v[4] = 7;
    m.exec_instr(Instr::SubReg(3, 4), 0).unwrap();
    assert_eq!(m.v[3], 0);
    assert_eq!(m.v[15], 1);
}

#[test]
fn subtract_reversed_uses_vy_minus_vx() {
    let mut m = Chip8::new();
    m.v[3] = 3;
    m.v[4] = 5;
    m.exec_instr(Instr::SubnReg(3, 4), 0).unwrap();
    assert_eq!(m.v[3], 2); // 5 - 3
    assert_eq!(m.v[15], 1); // 5 >= 3
}

#[test]
fn shifts_capture_pre_shift_bits_in_vf() {
    let mut m = Chip8::new();
    m.v[6] = 0b0000_0101;
    m.exec_instr(Instr::Shr(6), 0).unwrap();
    assert_eq!(m.v[6], 0b0000_0010);
    assert_eq!(m.v[15], 1); // pre-shift LSB

    let mut m = Chip8::new();
    m.v[6] = 0b0000_0100;
    m.exec_instr(Instr::Shr(6), 0).unwrap();
    assert_eq!(m.v[6], 0b0000_0010);
    assert_eq!(m.v[15], 0);

    let mut m = Chip8::new();
    m.v[6] = 0b1000_0001;
    m.exec_instr(Instr::Shl(6), 0).unwrap();
    assert_eq!(m.v[6], 0b0000_0010);
    assert_eq!(m.v[15], 1); // pre-shift MSB

    let mut m = Chip8::new();
    m.v[6] = 0b0100_0001;
    m.exec_instr(Instr::Shl(6), 0).unwrap();
    assert_eq!(m.v[6], 0b1000_0010);
    assert_eq!(m.v[15], 0);
}

#[test]
fn bcd_store_splits_157_into_digits() {
    let mut m = Chip8::new();
    m.v[0] = 157;
    m.i = 0x300;
    m.exec_instr(Instr::Bcd(0), 0).unwrap();
    assert_eq!(m.memory[0x300], 1);
    assert_eq!(m.memory[0x301], 5);
    assert_eq!(m.memory[0x302], 7);
}

#[test]
fn skip_if_equal_advances_by_4_or_2() {
    let mut m = Chip8::new();
    m.v[2] = 0xAB;
    m.exec_instr(Instr::SeImm(2, 0xAB), 0).unwrap();
    assert_eq!(m.pc, 0x204);

    let mut m = Chip8::new();
    m.v[2] = 0xAB;
    m.exec_instr(Instr::SeImm(2, 0xAC), 0).unwrap();
    assert_eq!(m.pc, 0x202);
}

#[test]
fn skip_if_not_equal_advances_by_4_or_2() {
    let mut m = Chip8::new();
    m.v[2] = 1;
    m.exec_instr(Instr::SneImm(2, 2), 0).unwrap();
    assert_eq!(m.pc, 0x204);
    m.exec_instr(Instr::SneImm(2, 1), 0).unwrap();
    assert_eq!(m.pc, 0x206);
}

#[test]
fn call_then_return_round_trip() {
    let mut m = Chip8::new();
    write_op(&mut m, 0x200, 0x2300); // call 0x300
    write_op(&mut m, 0x300, 0x00EE); // return
    let depth_before = m.stack.len();
    assert_eq!(m.emulate_cycle(), Ok(CycleOutcome::Executed));
    assert_eq!(m.pc, 0x300);
    assert_eq!(m.stack.len(), depth_before + 1);
    assert_eq!(m.emulate_cycle(), Ok(CycleOutcome::Executed));
    assert_eq!(m.pc, 0x202); // the instruction after the call
    assert_eq!(m.stack.len(), depth_before);
}

#[test]
fn return_on_empty_stack_is_fatal() {
    let mut m = Chip8::new();
    write_op(&mut m, 0x200, 0x00EE);
    assert_eq!(m.emulate_cycle(), Err(Fatal::StackUnderflow));
    assert_eq!(m.pc, 0x200); // untouched
}

#[test]
fn call_on_full_stack_is_fatal() {
    let mut m = Chip8::new();
    for _ in 0..16 {
        assert_eq!(m.exec_instr(Instr::Call(0x200), 0), Ok(CycleOutcome::Executed));
    }
    assert_eq!(m.stack.len(), 16);
    assert_eq!(m.exec_instr(Instr::Call(0x200), 0), Err(Fatal::StackOverflow));
    assert_eq!(m.stack.len(), 16);
}

#[test]
fn blocking_input_waits_then_takes_lowest_key() {
    let mut m = Chip8::new();
    write_op(&mut m, 0x200, 0xF50A); // wait for a key into V5
    let v_before = m.v.clone();
    for _ in 0..3 {
        assert_eq!(m.emulate_cycle(), Ok(CycleOutcome::AwaitingKey));
        assert_eq!(m.pc, 0x200);
        assert_eq!(m.v, v_before);
    }
    let mut keys = vec![false; 16];
    keys[7] = true;
    keys[3] = true;
    m.update_keys(&keys);
    assert_eq!(m.emulate_cycle(), Ok(CycleOutcome::Executed));
    assert_eq!(m.pc, 0x202);
    assert_eq!(m.v[5], 3); // the lowest-indexed held key
}

#[test]
fn key_skips_read_the_latch() {
    let mut m = Chip8::new();
    let mut keys = vec![false; 16];
    keys[0xA] = true;
    m.update_keys(&keys);
    m.v[1] = 0xA;
    m.exec_instr(Instr::Skp(1), 0).unwrap();
    assert_eq!(m.pc, 0x204);
    m.exec_instr(Instr::Sknp(1), 0).unwrap();
    assert_eq!(m.pc, 0x206);
    // a register value of 16 or more is never pressed
    m.v[1] = 200;
    m.exec_instr(Instr::Skp(1), 0).unwrap();
    assert_eq!(m.pc, 0x208);
    m.exec_instr(Instr::Sknp(1), 0).unwrap();
    assert_eq!(m.pc, 0x20C);
}

#[test]
fn load_and_add_immediate_end_to_end() {
    let mut m = Chip8::new();
    let image = vec![0x60, 0x05, 0x70, 0x03]; // V0 := 5; V0 := V0 + 3
    m.load_rom(&image).unwrap();
    let pc0 = m.pc;
    assert_eq!(m.emulate_cycle(), Ok(CycleOutcome::Executed));
    assert_eq!(m.emulate_cycle(), Ok(CycleOutcome::Executed));
    assert_eq!(m.v[0], 8);
    assert_eq!(m.pc, pc0 + 4);
}

#[test]
fn add_immediate_wraps_without_flag() {
    let mut m = Chip8::new();
    m.v[0] = 250;
    m.v[15] = 9;
    m.exec_instr(Instr::AddImm(0, 10), 0).unwrap();
    assert_eq!(m.v[0], 4); // (250 + 10) mod 256
    assert_eq!(m.v[15], 9); // no flag effect
}

#[test]
fn register_logic_ops() {
    let mut m = Chip8::new();
    m.v[1] = 0b1100;
    m.v[2] = 0b1010;
    m.exec_instr(Instr::OrReg(1, 2), 0).unwrap();
    assert_eq!(m.v[1], 0b1110);
    m.v[1] = 0b1100;
    m.exec_instr(Instr::AndReg(1, 2), 0).unwrap();
    assert_eq!(m.v[1], 0b1000);
    m.v[1] = 0b1100;
    m.exec_instr(Instr::XorReg(1, 2), 0).unwrap();
    assert_eq!(m.v[1], 0b0110);
    m.exec_instr(Instr::LdReg(1, 2), 0).unwrap();
    assert_eq!(m.v[1], 0b1010);
}

#[test]
fn jumps_set_the_program_counter() {
    let mut m = Chip8::new();
    m.exec_instr(Instr::Jp(0x456), 0).unwrap();
    assert_eq!(m.pc, 0x456);
    m.v[0] = 0x10;
    m.exec_instr(Instr::JpV0(0x300), 0).unwrap();
    assert_eq!(m.pc, 0x310);
}

#[test]
fn index_register_ops() {
    let mut m = Chip8::new();
    m.exec_instr(Instr::LdI(0x3FF), 0).unwrap();
    assert_eq!(m.i, 0x3FF);
    m.v[4] = 7;
    m.exec_instr(Instr::AddI(4), 0).unwrap();
    assert_eq!(m.i, 0x406);
    m.v[9] = 0x2B; // glyph for digit B
    m.exec_instr(Instr::LdGlyph(9), 0).unwrap();
    assert_eq!(m.i, 0x50 + 5 * 0xB);
}

#[test]
fn random_and_with_zero_mask_clears() {
    let mut m = Chip8::new();
    m.v[2] = 0xFF;
    // whatever byte the source produced, AND with 0 gives 0
    write_op(&mut m, 0x200, 0xC200);
    assert_eq!(m.emulate_cycle(), Ok(CycleOutcome::Executed));
    assert_eq!(m.v[2], 0);
}

#[test]
fn register_dump_and_load_round_trip() {
    let mut m = Chip8::new();
    for k in 0..4u8 {
        m.v[k as usize] = 10 + k;
    }
    m.i = 0x400;
    m.exec_instr(Instr::DumpRegs(3), 0).unwrap();
    assert_eq!(&m.memory[0x400..0x404], &[10, 11, 12, 13]);
    assert_eq!(m.memory[0x404], 0); // one past the inclusive range is untouched
    let mut m2 = Chip8::new();
    m2.memory[0x400..0x404].copy_from_slice(&[10, 11, 12, 13]);
    m2.i = 0x400;
    m2.exec_instr(Instr::LoadRegs(3), 0).unwrap();
    assert_eq!(&m2.v[0..4], &[10, 11, 12, 13]);
    assert_eq!(m2.v[4], 0);
}

#[test]
fn memory_bound_violations_are_fatal_and_leave_state() {
    let mut m = Chip8::new();
    m.i = 4094;
    m.v[0] = 157;
    assert_eq!(m.exec_instr(Instr::Bcd(0), 0), Err(Fatal::MemoryOutOfBounds));
    assert_eq!(m.pc, 0x200);
    assert_eq!(m.memory[4094], 0);
    m.i = 4090;
    assert_eq!(m.exec_instr(Instr::DumpRegs(6), 0), Err(Fatal::MemoryOutOfBounds));
    assert_eq!(m.exec_instr(Instr::LoadRegs(6), 0), Err(Fatal::MemoryOutOfBounds));
    m.i = 4090;
    assert_eq!(m.exec_instr(Instr::Drw(0, 0, 7), 0), Err(Fatal::MemoryOutOfBounds));
}

#[test]
fn program_counter_out_of_memory_is_fatal() {
    let mut m = Chip8::new();
    m.pc = 4095;
    assert_eq!(m.emulate_cycle(), Err(Fatal::PcOutOfBounds));
    assert_eq!(m.pc, 4095);
}

#[test]
fn unknown_opcodes_are_skipped() {
    let mut m = Chip8::new();
    write_op(&mut m, 0x200, 0x5001); // 5xy1 matches no documented pattern
    write_op(&mut m, 0x202, 0xE2FF); // nor does ExFF
    write_op(&mut m, 0x204, 0xF2FF); // nor FxFF
    write_op(&mut m, 0x206, 0x8238); // nor 8xy8
    for k in 1..5u16 {
        assert_eq!(m.emulate_cycle(), Ok(CycleOutcome::Executed));
        assert_eq!(m.pc, 0x200 + 2 * k);
    }
}

#[test]
fn system_address_words_are_ignored() {
    let mut m = Chip8::new();
    write_op(&mut m, 0x200, 0x0123);
    assert_eq!(m.emulate_cycle(), Ok(CycleOutcome::Executed));
    assert_eq!(m.pc, 0x202);
}

#[test]
fn delay_timer_read_and_write() {
    let mut m = Chip8::new();
    m.v[1] = 42;
    m.exec_instr(Instr::LdDt(1), 0).unwrap();
    assert_eq!(m.delay_timer, 42);
    m.exec_instr(Instr::LdFromDt(2), 0).unwrap();
    assert_eq!(m.v[2], 42);
    m.v[3] = 9;
    m.exec_instr(Instr::LdSt(3), 0).unwrap();
    assert_eq!(m.sound_timer, 9);
}

#[test]
fn decode_covers_the_documented_patterns() {
    assert_eq!(decode(0x00E0), Instr::Cls);
    assert_eq!(decode(0x00EE), Instr::Ret);
    assert_eq!(decode(0x0ABC), Instr::Sys);
    assert_eq!(decode(0x1234), Instr::Jp(0x234));
    assert_eq!(decode(0x2ABC), Instr::Call(0xABC));
    assert_eq!(decode(0x3A7F), Instr::SeImm(0xA, 0x7F));
    assert_eq!(decode(0x4A7F), Instr::SneImm(0xA, 0x7F));
    assert_eq!(decode(0x5AB0), Instr::SeReg(0xA, 0xB));
    assert_eq!(decode(0x6A7F), Instr::LdImm(0xA, 0x7F));
    assert_eq!(decode(0x7A7F), Instr::AddImm(0xA, 0x7F));
    assert_eq!(decode(0x8AB0), Instr::LdReg(0xA, 0xB));
    assert_eq!(decode(0x8AB1), Instr::OrReg(0xA, 0xB));
    assert_eq!(decode(0x8AB2), Instr::AndReg(0xA, 0xB));
    assert_eq!(decode(0x8AB3), Instr::XorReg(0xA, 0xB));
    assert_eq!(decode(0x8AB4), Instr::AddReg(0xA, 0xB));
    assert_eq!(decode(0x8AB5), Instr::SubReg(0xA, 0xB));
    assert_eq!(decode(0x8AB6), Instr::Shr(0xA));
    assert_eq!(decode(0x8AB7), Instr::SubnReg(0xA, 0xB));
    assert_eq!(decode(0x8ABE), Instr::Shl(0xA));
    assert_eq!(decode(0x9AB0), Instr::SneReg(0xA, 0xB));
    assert_eq!(decode(0xA123), Instr::LdI(0x123));
    assert_eq!(decode(0xB123), Instr::JpV0(0x123));
    assert_eq!(decode(0xCA55), Instr::Rnd(0xA, 0x55));
    assert_eq!(decode(0xDAB7), Instr::Drw(0xA, 0xB, 7));
    assert_eq!(decode(0xEA9E), Instr::Skp(0xA));
    assert_eq!(decode(0xEAA1), Instr::Sknp(0xA));
    assert_eq!(decode(0xFA07), Instr::LdFromDt(0xA));
    assert_eq!(decode(0xFA0A), Instr::WaitKey(0xA));
    assert_eq!(decode(0xFA15), Instr::LdDt(0xA));
    assert_eq!(decode(0xFA18), Instr::LdSt(0xA));
    assert_eq!(decode(0xFA1E), Instr::AddI(0xA));
    assert_eq!(decode(0xFA29), Instr::LdGlyph(0xA));
    assert_eq!(decode(0xFA33), Instr::Bcd(0xA));
    assert_eq!(decode(0xFA55), Instr::DumpRegs(0xA));
    assert_eq!(decode(0xFA65), Instr::LoadRegs(0xA));
    assert_eq!(decode(0xFFFF), Instr::Unknown);
}

#[test]
fn load_rom_rejects_an_image_past_the_end_of_memory() {
    let mut m = Chip8::new();
    let big = vec![0u8; 4096 - 0x200 + 1];
    assert_eq!(m.load_rom(&big), Err(LoadError::ImageTooLarge));
    assert_eq!(m.memory[0x200], 0); // machine unchanged
    let exact = vec![0xAAu8; 4096 - 0x200];
    assert_eq!(m.load_rom(&exact), Ok(()));
    assert_eq!(m.memory[0x200], 0xAA);
    assert_eq!(m.memory[4095], 0xAA);
    assert_eq!(m.memory[0x1FF], 0); // below the base nothing moves
}
