//! Laws of the machine, stated over the model and proved from the instruction semantics.
use vstd::prelude::*;
use crate::processor::{
    covers, draw_spec, hit, loaded_ram, nibbles, sprite_pixel, sprite_readable, opcode_at, set_reg, step, tick_spec, Chip8Error, Chip8State, ProgramCounter,
    CHIP8_HEIGHT, CHIP8_OPCODE_SIZE, CHIP8_RAM, CHIP8_WIDTH, FLAG_REG, CHIP8_REG_V, CHIP8_STACK, PROGRAM_BASE,
};

verus! {

/// Loading a program places its bytes verbatim from the program base on, as far
/// as memory reaches, and leaves every byte below the program base as it was.
pub proof fn lemma_load_places_bytes(ram: Seq<u8>, data: Seq<u8>)
    requires
        ram.len() == CHIP8_RAM,
    ensures
        loaded_ram(ram, data).len() == CHIP8_RAM,
        forall|k: int|
            0 <= k < data.len() && PROGRAM_BASE + k < CHIP8_RAM ==> #[trigger] loaded_ram(ram, data)[PROGRAM_BASE + k]
                == data[k],
        forall|a: int| 0 <= a < PROGRAM_BASE ==> #[trigger] loaded_ram(ram, data)[a] == ram[a],
        forall|a: int|
            PROGRAM_BASE + data.len() <= a < CHIP8_RAM ==> #[trigger] loaded_ram(ram, data)[a] == ram[a],
{
}

/// The load-immediate instruction `6rvv` sets register `r` to exactly `v`,
/// touches nothing else, and moves on to the next instruction.
pub proof fn lemma_load_immediate(s: Chip8State, r: u8, v: u8, rnd: u8)
    requires
        s.wf(),
        r < CHIP8_REG_V,
    ensures
        ({
            let (t, res) = step(s, (0x6000 + r * 256 + v) as u16, rnd);
            &&& res == Ok::<ProgramCounter, Chip8Error>(ProgramCounter::Next)
            &&& t.reg_v[r as int] == v
            &&& t == set_reg(s, r as int, v)
        }),
{
    let op = (0x6000 + r * 256 + v) as u16;
    assert(nibbles(op).0 == 6 && nibbles(op).1 == r);
    assert(op % 256 == v);
}

/// A call to `a` followed by the return at `a` brings the counter to the
/// instruction right after the call and the stack pointer back to its value
/// before the call, whatever the elapsed times and keypad snapshots of the two ticks.
pub proof fn lemma_call_return(
    s: Chip8State,
    a: usize,
    d1: u64,
    k1: Seq<bool>,
    b1: u8,
    d2: u64,
    k2: Seq<bool>,
    b2: u8,
)
    requires
        s.wf(),
        s.reg_sp < CHIP8_STACK,
        s.reg_pc + 1 < CHIP8_RAM,
        a + 1 < CHIP8_RAM,
        opcode_at(s.ram, s.reg_pc as int) == 0x2000 + a,
        opcode_at(s.ram, a as int) == 0x00EE,
    ensures
        ({
            let (s1, r1) = tick_spec(s, d1, k1, b1);
            let (s2, r2) = tick_spec(s1, d2, k2, b2);
            &&& r1 == Ok::<ProgramCounter, Chip8Error>(ProgramCounter::Jump(a))
            &&& s1.reg_pc == a
            &&& s1.reg_sp == s.reg_sp + 1
            &&& r2 == Ok::<ProgramCounter, Chip8Error>(ProgramCounter::Jump((s.reg_pc + CHIP8_OPCODE_SIZE) as usize))
            &&& s2.reg_pc == s.reg_pc + CHIP8_OPCODE_SIZE
            &&& s2.reg_sp == s.reg_sp
        }),
{
    let op = (0x2000 + a) as u16;
    assert(nibbles(op).0 == 2);
    assert(op % 4096 == a);
}

/// Drawing the same sprite twice at the same place leaves the frame buffer as it
/// was. On a blank screen the first pass reports no collision and the second
/// reports one exactly when some on-screen pixel of the sprite is set. The
/// position registers must not be the flag register, which the first pass rewrites.
pub proof fn lemma_draw_twice(s: Chip8State, x: int, y: int, n: int)
    requires
        s.wf(),
        0 <= x < FLAG_REG,
        0 <= y < FLAG_REG,
        0 <= n < 16,
        sprite_readable(s, s.reg_v[x] as int, s.reg_v[y] as int, n),
    ensures
        draw_spec(draw_spec(s, x, y, n), x, y, n).vram == s.vram,
        (forall|py: int, px: int|
            0 <= py < CHIP8_HEIGHT && 0 <= px < CHIP8_WIDTH ==> #[trigger] s.vram[py][px] == 0) ==> {
            &&& draw_spec(s, x, y, n).reg_v[FLAG_REG as int] == 0
            &&& draw_spec(draw_spec(s, x, y, n), x, y, n).reg_v[FLAG_REG as int] == 1 <==> exists|
                px: int,
                py: int,
            |
                0 <= px < CHIP8_WIDTH && 0 <= py < CHIP8_HEIGHT && covers(
                    s.reg_v[x] as int,
                    s.reg_v[y] as int,
                    n,
                    px,
                    py,
                ) && #[trigger] sprite_pixel(s, s.reg_v[x] as int, s.reg_v[y] as int, px, py) == 1
        },
{
    let s1 = draw_spec(s, x, y, n);
    let s2 = draw_spec(s1, x, y, n);
    let x0 = s.reg_v[x] as int;
    let y0 = s.reg_v[y] as int;
    assert(s1.reg_v[x] == s.reg_v[x] && s1.reg_v[y] == s.reg_v[y]);
    assert forall|py: int| 0 <= py < CHIP8_HEIGHT implies #[trigger] s2.vram[py] =~= s.vram[py] by {
        assert forall|px: int| 0 <= px < CHIP8_WIDTH implies s2.vram[py][px] == s.vram[py][px] by {
            if covers(x0, y0, n, px, py) {
                let v = s.vram[py][px];
                let b = sprite_pixel(s, x0, y0, px, py);
                assert(sprite_pixel(s1, x0, y0, px, py) == b);
                assert((v ^ b) ^ b == v) by (bit_vector);
            }
        }
    }
    assert(s2.vram =~= s.vram);
    if forall|py: int, px: int|
        0 <= py < CHIP8_HEIGHT && 0 <= px < CHIP8_WIDTH ==> #[trigger] s.vram[py][px] == 0 {
        assert forall|px: int, py: int| !hit(s, x0, y0, n, px, py) by {
            if 0 <= px < CHIP8_WIDTH && 0 <= py < CHIP8_HEIGHT {
                let b = sprite_pixel(s, x0, y0, px, py);
                assert(s.vram[py][px] == 0);
                assert(0u8 & b == 0) by (bit_vector);
            }
        }
        assert forall|px: int, py: int|
            0 <= px < CHIP8_WIDTH && 0 <= py < CHIP8_HEIGHT && covers(x0, y0, n, px, py) implies
            hit(s1, x0, y0, n, px, py) <==> sprite_pixel(s, x0, y0, px, py) == 1 by {
            let b = sprite_pixel(s, x0, y0, px, py);
            assert(sprite_pixel(s1, x0, y0, px, py) == b);
            assert(s.vram[py][px] == 0);
            let byte = s.ram[s.reg_i + (py - y0)];
            let sh = (7 - (px - x0)) as u8;
            assert(b == (byte >> sh) & 1u8);
            assert((byte >> sh) & 1u8 == 0 || (byte >> sh) & 1u8 == 1) by (bit_vector);
            assert((0u8 ^ b) & b == b) by (bit_vector);
        }
    }
}

} // verus!
