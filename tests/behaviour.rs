use chip8::font::FONT_SET;
use chip8::processor::{Chip8Error, Processor, ProgramCounter};

fn no_keys() -> [bool; 16] {
    [false; 16]
}

#[test]
fn draw_twice_restores_pixels_and_flags_collision() {
    let mut p = Processor::new();
    p.load(&[0b10101010]);
    p.reg_v[0] = 10;
    p.reg_v[1] = 20;
    p.reg_i = 0x200;
    p.op_dxyn(0, 1, 1);
    assert_eq!(p.vram[20][10..18], [1, 0, 1, 0, 1, 0, 1, 0]);
    assert_eq!(p.reg_v[0xf], 0);
    p.op_dxyn(0, 1, 1);
    assert_eq!(p.vram[20][10..18], [0, 0, 0, 0, 0, 0, 0, 0]);
    assert_eq!(p.reg_v[0xf], 1);
    assert!(p.vram_changed);
}

#[test]
fn draw_clips_instead_of_wrapping() {
    let mut p = Processor::new();
    p.load(&[0xFF, 0xFF]);
    p.reg_v[0] = 60;
    p.reg_v[1] = 31;
    p.reg_i = 0x200;
    p.op_dxyn(0, 1, 2);
    assert_eq!(p.vram[31][60..64], [1, 1, 1, 1]);
    assert_eq!(p.vram[31][0..4], [0, 0, 0, 0]);
    assert_eq!(p.vram[0][60..64], [0, 0, 0, 0]);
}

#[test]
fn load_drops_bytes_past_memory() {
    let mut p = Processor::new();
    let data: Vec<u8> = (0..4000u32).map(|i| (i % 251) as u8).collect();
    p.load(&data);
    assert_eq!(p.ram[0x200], data[0]);
    assert_eq!(p.ram[4095], data[4095 - 0x200]);
    assert_eq!(p.ram[0..80], FONT_SET);
}

#[test]
fn reset_pc_keeps_memory_and_registers() {
    let mut p = Processor::new();
    p.load(&[7, 8]);
    p.reg_v[2] = 9;
    p.op_2nnn(0x300).unwrap();
    p.reg_pc = 0x456;
    p.reset_pc();
    assert_eq!(p.reg_pc, 0x200);
    assert_eq!(p.reg_sp, 0);
    assert_eq!(p.reg_v[2], 9);
    assert_eq!(p.ram[0x200..0x202], [7, 8]);
}

#[test]
fn add_immediate_wraps_without_flag() {
    let mut p = Processor::new();
    p.reg_v[4] = 250;
    p.op_7xkk(4, 10);
    assert_eq!(p.reg_v[4], 4);
    assert_eq!(p.reg_v[0xf], 0);
}

#[test]
fn shifts_by_eight_or_more_clear_register() {
    let mut p = Processor::new();
    p.reg_v[0] = 0b1000_0001;
    p.reg_v[1] = 9;
    p.op_8xye(0, 1);
    assert_eq!(p.reg_v[0], 0);
    assert_eq!(p.reg_v[0xf], 1);

    p.reg_v[0] = 0b1000_0001;
    p.reg_v[1] = 8;
    p.op_8xy6(0, 1);
    assert_eq!(p.reg_v[0], 0);
    assert_eq!(p.reg_v[0xf], 1);
}

#[test]
fn font_address_of_large_value() {
    let mut p = Processor::new();
    p.reg_v[0] = 0xFF;
    p.op_fx29(0);
    assert_eq!(p.reg_i, 1275);
    p.reg_v[0] = 0xA;
    p.op_fx29(0);
    assert_eq!(p.reg_i, 50);
}

#[test]
fn clear_reaches_every_column() {
    let mut p = Processor::new();
    p.vram[31][63] = 1;
    p.vram[0][40] = 1;
    assert!(matches!(p.op_00e0(), ProgramCounter::Next));
    assert_eq!(p.vram[31][63], 0);
    assert_eq!(p.vram[0][40], 0);
}

#[test]
fn call_with_full_stack_overflows() {
    let mut p = Processor::new();
    for _ in 0..16 {
        assert!(p.op_2nnn(0x300).is_ok());
    }
    assert_eq!(p.op_2nnn(0x300), Err(Chip8Error::StackOverflow));
    assert_eq!(p.reg_sp, 16);
}

#[test]
fn return_with_empty_stack_underflows() {
    let mut p = Processor::new();
    assert_eq!(p.op_00ee(), Err(Chip8Error::StackUnderflow));
    assert_eq!(p.reg_sp, 0);
}

#[test]
fn unknown_opcode_is_fatal() {
    let mut p = Processor::new();
    p.load(&[0x50, 0x10]);
    let r = p.tick(0, no_keys());
    assert!(matches!(r, Err(Chip8Error::UnknownOpcode(0x5010))));
    assert_eq!(p.reg_pc, 0x200);
}

#[test]
fn tick_moves_counter_by_next_skip_and_jump() {
    let mut p = Processor::new();
    p.load(&[0x6A, 0x05, 0x7A, 0x03, 0x3A, 0x08, 0x00, 0x00, 0x12, 0x00]);
    p.tick(0, no_keys()).unwrap();
    assert_eq!(p.reg_pc, 0x202);
    assert_eq!(p.reg_v[0xA], 5);
    p.tick(0, no_keys()).unwrap();
    assert_eq!(p.reg_pc, 0x204);
    assert_eq!(p.reg_v[0xA], 8);
    p.tick(0, no_keys()).unwrap();
    assert_eq!(p.reg_pc, 0x208);
    p.tick(0, no_keys()).unwrap();
    assert_eq!(p.reg_pc, 0x200);
}

#[test]
fn call_then_return_through_ticks() {
    let mut p = Processor::new();
    p.load(&[0x23, 0x00]);
    p.ram[0x300] = 0x00;
    p.ram[0x301] = 0xEE;
    p.tick(0, no_keys()).unwrap();
    assert_eq!(p.reg_pc, 0x300);
    assert_eq!(p.reg_sp, 1);
    p.tick(0, no_keys()).unwrap();
    assert_eq!(p.reg_pc, 0x202);
    assert_eq!(p.reg_sp, 0);
}

#[test]
fn tick_reports_frame_changes() {
    let mut p = Processor::new();
    p.load(&[0xA2, 0x08, 0xD0, 0x11, 0x60, 0x01, 0x00, 0x00, 0x80]);
    let out = p.tick(0, no_keys()).unwrap();
    assert!(!out.vram_changed);
    let out = p.tick(0, no_keys()).unwrap();
    assert!(out.vram_changed);
    assert_eq!(out.vram[0][0], 1);
    let out = p.tick(0, no_keys()).unwrap();
    assert!(!out.vram_changed);
    assert_eq!(out.vram[0][0], 1);
}

#[test]
fn fetch_past_memory_is_out_of_range() {
    let mut p = Processor::new();
    p.reg_pc = 4095;
    assert_eq!(p.tick(0, no_keys()).err(), Some(Chip8Error::AddressOutOfRange(4095)));
}

#[test]
fn bcd_past_memory_is_out_of_range() {
    let mut p = Processor::new();
    p.reg_i = 4094;
    assert_eq!(p.execute(0xF033, 0), Err(Chip8Error::AddressOutOfRange(4094)));
    p.reg_i = 4093;
    assert_eq!(p.execute(0xF033, 0), Ok(ProgramCounter::Next));
}

#[test]
fn key_register_above_fifteen_is_invalid() {
    let mut p = Processor::new();
    p.reg_v[2] = 16;
    assert_eq!(p.execute(0xE2A1, 0), Err(Chip8Error::InvalidKey(16)));
}

#[test]
fn random_mask_uses_given_byte() {
    let mut p = Processor::new();
    p.op_cxkk_with(3, 0b0011_1100, 0b1111_0000);
    assert_eq!(p.reg_v[3], 0b0011_0000);
    assert_eq!(p.execute(0xC30F, 0xAB), Ok(ProgramCounter::Next));
    assert_eq!(p.reg_v[3], 0x0B);
}

#[test]
fn random_mask_stays_within_mask() {
    let mut p = Processor::new();
    for _ in 0..50 {
        p.op_cxkk(5, 0x0F);
        assert_eq!(p.reg_v[5] & 0xF0, 0);
        p.op_cxkk(6, 0);
        assert_eq!(p.reg_v[6], 0);
    }
}

#[test]
fn timer_waits_for_a_period_and_stops_at_zero() {
    let mut p = Processor::new();
    p.reg_dt = 2;
    p.update_delay_timer(10_000_000);
    assert_eq!(p.reg_dt, 2);
    p.update_delay_timer(10_000_000);
    assert_eq!(p.reg_dt, 1);
    assert_eq!(p.timer_cycle, 20_000_000);
    p.update_delay_timer(1);
    p.update_delay_timer(1);
    assert_eq!(p.reg_dt, 0);
    p.update_delay_timer(u64::MAX);
    assert_eq!(p.timer_cycle, u64::MAX);
    assert_eq!(p.reg_dt, 0);
}

#[test]
fn block_load_stops_at_named_register() {
    let mut p = Processor::new();
    p.load(&[9, 8, 7, 6]);
    p.reg_v[3] = 42;
    p.reg_i = 0x200;
    p.op_fx65(2);
    assert_eq!(p.reg_v[0..4], [9, 8, 7, 42]);
}

#[test]
fn instruction_word_is_big_endian() {
    let mut p = Processor::new();
    p.load(&[0x12, 0x34]);
    assert_eq!(p.read_opcode(), 0x1234);
}

#[test]
fn load_immediate_through_execute() {
    let mut p = Processor::new();
    for r in 0..16u16 {
        let v = (r * 17) as u8;
        assert_eq!(p.execute(0x6000 | (r << 8) | v as u16, 0), Ok(ProgramCounter::Next));
        assert_eq!(p.reg_v[r as usize], v);
    }
}
