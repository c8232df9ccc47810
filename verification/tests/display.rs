//! Tests of the display: the XOR draw with collision and wraparound, the
//! framebuffer snapshot, and the timers around the tone signal.

use chip8::decode::Instr;
use chip8::machine::Chip8;
use chip8::state::CycleOutcome;

fn cell(m: &Chip8, col: usize, row: usize) -> u8 {
    m.gfx[row * 64 + col]
}

#[test]
fn fresh_machine_is_zeroed_with_glyphs_installed() {
    let m = Chip8::new();
    assert_eq!(m.pc, 0x200);
    assert_eq!(m.i, 0);
    assert_eq!(m.stack.len(), 0);
    assert!(m.v.iter().all(|&b| b == 0));
    assert!(m.gfx.iter().all(|&b| b == 0));
    assert!(m.keypad.iter().all(|&k| !k));
    assert_eq!(m.delay_timer, 0);
    assert_eq!(m.sound_timer, 0);
    // the glyph rows of digit 0 and digit F
    assert_eq!(&m.memory[0x50..0x55], &[0xF0, 0x90, 0x90, 0x90, 0xF0]);
    assert_eq!(&m.memory[0x9B..0xA0], &[0xF0, 0x80, 0xF0, 0x80, 0x80]);
    assert_eq!(m.memory[0x4F], 0);
    assert_eq!(m.memory[0xA0], 0);
}

#[test]
fn draw_sets_pixels_and_reports_no_collision_on_empty_grid() {
    let mut m = Chip8::new();
    m.memory[0x400] = 0b1010_0000;
    m.memory[0x401] = 0b0100_0000;
    m.i = 0x400;
    m.v[0] = 10; // column
    m.v[1] = 5;  // row
    assert_eq!(m.exec_instr(Instr::Drw(0, 1, 2), 0), Ok(CycleOutcome::Executed));
    assert_eq!(m.v[15], 0);
    assert_eq!(cell(&m, 10, 5), 1);
    assert_eq!(cell(&m, 11, 5), 0);
    assert_eq!(cell(&m, 12, 5), 1);
    assert_eq!(cell(&m, 11, 6), 1);
    assert_eq!(cell(&m, 10, 6), 0);
}

#[test]
fn drawing_twice_restores_the_grid_and_collides() {
    let mut m = Chip8::new();
    m.memory[0x400] = 0xFF;
    m.memory[0x401] = 0x81;
    m.i = 0x400;
    m.v[2] = 20;
    m.v[3] = 10;
    m.exec_instr(Instr::Drw(2, 3, 2), 0).unwrap();
    assert_eq!(m.v[15], 0);
    let drawn = m.gfx.clone();
    assert!(drawn.iter().any(|&b| b == 1));
    // second draw of the same sprite at the same place erases it exactly
    m.exec_instr(Instr::Drw(2, 3, 2), 0).unwrap();
    assert_eq!(m.v[15], 1); // every 1 pixel hit a set cell
    assert!(m.gfx.iter().all(|&b| b == 0));
    // and a third draw brings the drawn image back
    m.exec_instr(Instr::Drw(2, 3, 2), 0).unwrap();
    assert_eq!(m.v[15], 0);
    assert_eq!(m.gfx, drawn);
}

#[test]
fn collision_is_seen_only_where_one_bits_meet() {
    let mut m = Chip8::new();
    m.memory[0x400] = 0b1000_0000;
    m.memory[0x401] = 0b0100_0000;
    m.i = 0x400;
    m.v[0] = 0;
    m.v[1] = 0;
    m.exec_instr(Instr::Drw(0, 0, 1), 0).unwrap(); // sets (0,0) only
    assert_eq!(m.v[15], 0);
    // the second sprite's 1 bit lands on the clear cell (1,1): no collision,
    // though its 0 bits pass over the set cell (0,0)
    m.i = 0x401;
    m.exec_instr(Instr::Drw(0, 0, 1), 0).unwrap();
    assert_eq!(m.v[15], 0);
    assert_eq!(cell(&m, 0, 0), 1);
    assert_eq!(cell(&m, 1, 0), 1);
}

#[test]
fn draw_wraps_columns_past_the_right_edge() {
    let mut m = Chip8::new();
    m.memory[0x400] = 0b1100_0001;
    m.i = 0x400;
    m.v[0] = 63;
    m.v[1] = 0;
    m.exec_instr(Instr::Drw(0, 1, 1), 0).unwrap();
    // sprite column 0 (the byte's MSB) lands at grid column 63,
    // sprite columns 1..8 wrap to grid columns 0..7
    assert_eq!(cell(&m, 63, 0), 1); // bit 7
    assert_eq!(cell(&m, 0, 0), 1); // bit 6
    assert_eq!(cell(&m, 1, 0), 0);
    assert_eq!(cell(&m, 5, 0), 0);
    assert_eq!(cell(&m, 6, 0), 1); // bit 0
    assert_eq!(cell(&m, 7, 0), 0);
}

#[test]
fn draw_wraps_rows_past_the_bottom_edge() {
    let mut m = Chip8::new();
    m.memory[0x400] = 0x80;
    m.memory[0x401] = 0x80;
    m.i = 0x400;
    m.v[0] = 4;
    m.v[1] = 31;
    m.exec_instr(Instr::Drw(0, 1, 2), 0).unwrap();
    assert_eq!(cell(&m, 4, 31), 1);
    assert_eq!(cell(&m, 4, 0), 1); // the second row wraps to the top
}

#[test]
fn clear_instruction_zeroes_the_grid() {
    let mut m = Chip8::new();
    m.memory[0x400] = 0xFF;
    m.i = 0x400;
    m.exec_instr(Instr::Drw(0, 0, 1), 0).unwrap();
    assert!(m.gfx.iter().any(|&b| b == 1));
    m.exec_instr(Instr::Cls, 0).unwrap();
    assert!(m.gfx.iter().all(|&b| b == 0));
}

#[test]
fn render_maps_cells_to_white_and_black() {
    let mut m = Chip8::new();
    m.memory[0x400] = 0b1000_0000;
    m.i = 0x400;
    m.v[0] = 3;
    m.v[1] = 2;
    m.exec_instr(Instr::Drw(0, 1, 1), 0).unwrap();
    let buf = m.render();
    assert_eq!(buf.len(), 64 * 32);
    assert_eq!(buf[2 * 64 + 3], 0xFFFFFF);
    assert_eq!(buf[0], 0x000000);
}

#[test]
fn timers_tick_down_and_clamp_at_zero() {
    let mut m = Chip8::new();
    m.delay_timer = 2;
    m.sound_timer = 1;
    assert!(m.sound_active());
    m.tick_timers();
    assert_eq!(m.delay_timer, 1);
    assert_eq!(m.sound_timer, 0);
    assert!(!m.sound_active());
    m.tick_timers();
    m.tick_timers();
    assert_eq!(m.delay_timer, 0);
    assert_eq!(m.sound_timer, 0);
}

#[test]
fn executing_does_not_tick_the_timers() {
    let mut m = Chip8::new();
    m.delay_timer = 5;
    m.sound_timer = 5;
    let image = vec![0x60, 0x05, 0x70, 0x03];
    m.load_rom(&image).unwrap();
    m.emulate_cycle().unwrap();
    m.emulate_cycle().unwrap();
    // instruction throughput is decoupled from the timer rate
    assert_eq!(m.delay_timer, 5);
    assert_eq!(m.sound_timer, 5);
}

#[test]
fn keypad_reads_back_and_reports_lowest_key() {
    let mut m = Chip8::new();
    assert_eq!(m.get_pressed_key(), None);
    let mut keys = vec![false; 16];
    keys[9] = true;
    keys[12] = true;
    m.update_keys(&keys);
    assert_eq!(m.get_pressed_key(), Some(9));
    assert_eq!(m.keypad, keys);
}
