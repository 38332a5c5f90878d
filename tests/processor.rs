use chip8::font::FONT_SET;
use chip8::processor::{Processor, ProgramCounter};
use std::time::Duration;

#[test]
fn test_initial_state() {
    let p = Processor::new();

    assert_eq!(p.reg_pc, 0x200);
    assert_eq!(p.ram[0..80], FONT_SET);
    assert_eq!(p.vram_changed, false);
}

#[test]
fn test_load() {
    let data = [1, 2, 3, 4, 5];
    let mut p = Processor::new();
    p.load(&data);

    assert_eq!(p.ram[0x200..0x205], [1, 2, 3, 4, 5]);
}

#[test]
fn op_6xkk() {
    let mut p = Processor::new();
    for n in 0..15 {
        p.op_6xkk(n as usize, n);

        assert_eq!(p.reg_v[n as usize], n);
    }
}

#[test]
fn op_annn() {
    let mut p = Processor::new();
    p.op_annn(0x123);

    assert_eq!(p.reg_i, 0x123);
}

#[test]
fn op_2nnn() {
    let mut p = Processor::new();
    let pc = p.op_2nnn(0x123);

    assert_eq!(p.stack[0], 0x202);
    assert_eq!(p.reg_sp, 1);
    assert!(matches!(pc, Ok(ProgramCounter::Jump(0x123))));
}

#[test]
fn op_dxyn() {
    let mut p = Processor::new();
    let data = [0b10101010];
    p.load(&data);
    p.reg_v[0] = 10;
    p.reg_v[1] = 20;
    p.reg_i = 0x200;
    p.op_dxyn(0, 1, 1);

    assert_eq!(p.vram_changed, true);
    assert_eq!(p.vram[20][10..18], [1, 0, 1, 0, 1, 0, 1, 0]);
}

#[test]
fn op_fx33() {
    let mut p = Processor::new();
    p.reg_i = 100;
    p.reg_v[0] = 145;
    p.op_fx33(0);

    assert_eq!(p.ram[100], 1);
    assert_eq!(p.ram[101], 4);
    assert_eq!(p.ram[102], 5);
}

#[test]
fn op_fx65() {
    let mut p = Processor::new();
    let data = [1, 2, 3, 4, 5, 6, 7, 8, 9, 10, 11, 12, 13, 14, 15, 16];
    p.load(&data);
    p.reg_i = 0x200;
    p.op_fx65(0xf);

    assert_eq!(p.reg_v, [1, 2, 3, 4, 5, 6, 7, 8, 9, 10, 11, 12, 13, 14, 15, 16]);
}

#[test]
fn op_fx29() {
    let mut p = Processor::new();
    p.reg_v[3] = 5;
    p.op_fx29(3);

    assert_eq!(p.reg_i, 25);
}

#[test]
fn op_7xkk() {
    let mut p = Processor::new();
    p.reg_v[3] = 5;
    p.op_7xkk(3, 15);

    assert_eq!(p.reg_v[3], 20);
}

#[test]
fn op_00ee() {
    let mut p = Processor::new();
    p.op_2nnn(0x100).unwrap();
    let pc = p.op_00ee();

    assert!(matches!(pc, Ok(ProgramCounter::Jump(0x202))));
    assert_eq!(p.reg_sp, 0);
}

#[test]
fn op_00e0() {
    let mut p = Processor::new();

    p.vram[1][1] = 1;
    p.op_00e0();
    assert_eq!(p.vram[1][1], 0);
    assert_eq!(p.vram_changed, true);
}

#[test]
fn op_1nnn() {
    let mut p = Processor::new();
    let pc = p.op_1nnn(0x123);
    assert!(matches!(pc, ProgramCounter::Jump(0x123)));
}

#[test]
fn op_fn15() {
    let mut p = Processor::new();
    p.reg_v[0x1] = 15;
    p.op_fn15(0x1);

    assert_eq!(p.reg_dt, 15);
}

#[test]
fn op_fx07() {
    let mut p = Processor::new();
    p.reg_dt = 15;
    p.op_fx07(0x1);
    assert_eq!(p.reg_v[0x1], 15);
}

#[test]
fn delay_timer() {
    let mut p = Processor::new();

    p.reg_dt = 100;
    for _ in 0..60 {
        p.update_delay_timer(Duration::from_secs_f32(1.0 / 60.0).as_nanos() as u64);
    }

    assert_eq!(Duration::from_nanos(p.timer_cycle).as_secs(), Duration::from_secs(1).as_secs());
    assert_eq!(p.reg_dt, 40);
}

#[test]
fn op_3xkk() {
    let mut p = Processor::new();
    p.reg_v[0x1] = 15;

    let pc1 = p.op_3xkk(0x1, 10);
    let pc2 = p.op_3xkk(0x1, 15);
    let pc3 = p.op_3xkk(0x1, 20);

    assert!(matches!(pc1, ProgramCounter::Next));
    assert!(matches!(pc2, ProgramCounter::Skip));
    assert!(matches!(pc3, ProgramCounter::Next));
}

#[test]
fn op_exa1() {
    let mut p = Processor::new();
    p.load(&[0x00, 0xe0]);

    let keymap = [
        true, false, false, false, false, false, false, false, false, false, false, false, false,
        false, false, false,
    ];
    p.tick(0, keymap).unwrap();
    p.reg_v[0x0] = 0;
    p.reg_v[0x1] = 1;

    let pc1 = p.op_exa1(0x0);
    let pc2 = p.op_exa1(0x1);

    assert!(matches!(pc1, ProgramCounter::Next));
    assert!(matches!(pc2, ProgramCounter::Skip));
}

#[test]
fn op_8xye() {
    let mut p = Processor::new();

    p.reg_v[0] = 0b0000_0001;
    p.reg_v[1] = 4;
    p.op_8xye(0, 1);
    assert_eq!(p.reg_v[0], 0b0001_0000);

    p.reg_v[1] = 0b0000_0001;
    p.op_8xye(1, 1);
    assert_eq!(p.reg_v[1], 0b0000_0010);

    p.reg_v[0] = 0b0000_0001;
    p.op_8xye(0, 0);
    assert_eq!(p.reg_v[0], 0b0000_0010);

    p.reg_v[0] = 0b0000_0001;
    p.op_8xye(0, 0);
    assert_eq!(p.reg_v[0xf], 0);

    p.reg_v[0] = 0b1000_0000;
    p.op_8xye(0, 0);
    assert_eq!(p.reg_v[0xf], 1);
}

#[test]
fn op_8xy6() {
    let mut p = Processor::new();

    p.reg_v[0] = 0b1000_0000;
    p.reg_v[1] = 4;
    p.op_8xy6(0, 1);
    assert_eq!(p.reg_v[0], 0b0000_1000);

    p.reg_v[1] = 0b1000_0000;
    p.op_8xy6(1, 1);
    assert_eq!(p.reg_v[1], 0b0100_0000);

    p.reg_v[0] = 0b1000_0000;
    p.op_8xy6(0, 0);
    assert_eq!(p.reg_v[0], 0b0100_0000);

    p.reg_v[0] = 0b1000_0000;
    p.op_8xy6(0, 0);
    assert_eq!(p.reg_v[0xf], 0);

    p.reg_v[0] = 0b0000_0001;
    p.op_8xy6(0, 0);
    assert_eq!(p.reg_v[0xf], 1);
}
