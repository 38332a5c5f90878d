//! The processor: state, instruction semantics and the tick step.
use vstd::prelude::*;
use crate::font::{FONT_GLYPH_BYTES, FONT_LEN, FONT_SET};

verus! {

/// Width of an instruction word in bytes.
pub const CHIP8_OPCODE_SIZE: usize = 2;
/// Number of general registers.
pub const CHIP8_REG_V: usize = 16;
/// Capacity of the return-address stack.
pub const CHIP8_STACK: usize = 16;
/// Size of memory in bytes.
pub const CHIP8_RAM: usize = 4096;
/// Frame-buffer width in pixels.
pub const CHIP8_WIDTH: usize = 64;
/// Frame-buffer height in pixels.
pub const CHIP8_HEIGHT: usize = 32;
/// Address at which programs are loaded and execution starts.
pub const PROGRAM_BASE: usize = 0x200;
/// Index of the flag register.
pub const FLAG_REG: usize = 0xF;
/// Delay-timer period in nanoseconds (one sixtieth of a second).
pub const TIMER_PERIOD_NANOS: u64 = 16_666_667;

/// How the program counter moves after an instruction.
#[derive(PartialEq, Eq, Structural, Clone, Copy, Debug)]
pub enum ProgramCounter {
    /// Advance by one instruction.
    Next,
    /// Advance by two instructions.
    Skip,
    /// Continue at the given address.
    Jump(usize),
}

/// Fatal conditions that stop execution.
#[derive(PartialEq, Eq, Structural, Clone, Copy, Debug)]
pub enum Chip8Error {
    /// The instruction word matches no implemented instruction.
    UnknownOpcode(u16),
    /// A call was made with the return-address stack full.
    StackOverflow,
    /// A return was made with the return-address stack empty.
    StackUnderflow,
    /// An instruction fetch or a memory access that starts at this address runs past the end of memory.
    AddressOutOfRange(usize),
    /// A key instruction named a key outside 0 to F.
    InvalidKey(u8),
}

/// What one tick hands to the renderer: a copy of the frame buffer and
/// whether this tick touched it.
pub struct OutputState {
    /// The frame buffer, row by row.
    pub vram: [[u8; 64]; 32],
    pub vram_changed: bool,
}

/// The processor's complete state.
pub struct Processor {
    /// Memory: the font table at address 0, programs from the program base on.
    pub ram: [u8; 4096],
    /// Frame buffer, row by row; each pixel is 0 or 1.
    pub vram: [[u8; 64]; 32],
    /// Whether an instruction of the current tick touched the frame buffer.
    pub vram_changed: bool,
    /// General registers; register 15 doubles as the flag.
    pub reg_v: [u8; 16],
    /// Return addresses of the calls in progress, below the stack pointer.
    pub stack: [usize; 16],
    /// Index register, the base address of memory-relative instructions.
    pub reg_i: usize,
    /// Program counter.
    pub reg_pc: usize,
    /// Number of return addresses on the stack.
    pub reg_sp: usize,
    /// Delay timer.
    pub reg_dt: u8,
    /// Elapsed time accumulated by the delay timer, in nanoseconds.
    pub timer_cycle: u64,
    pub keypad: [bool; 16],
}

/// The mathematical model of a processor: every array as a sequence.
pub struct Chip8State {
    pub ram: Seq<u8>,
    pub vram: Seq<Seq<u8>>,
    pub vram_changed: bool,
    pub reg_v: Seq<u8>,
    pub stack: Seq<usize>,
    pub reg_i: usize,
    pub reg_pc: usize,
    pub reg_sp: usize,
    pub reg_dt: u8,
    pub timer_cycle: u64,
    pub keypad: Seq<bool>,
}

impl Chip8State {
    /// Every sequence has its machine size and the stack pointer is within the stack.
    pub open spec fn wf(self) -> bool {
        &&& self.ram.len() == CHIP8_RAM
        &&& self.vram.len() == CHIP8_HEIGHT
        &&& forall|y: int| 0 <= y < CHIP8_HEIGHT ==> (#[trigger] self.vram[y]).len() == CHIP8_WIDTH
        &&& self.reg_v.len() == CHIP8_REG_V
        &&& self.stack.len() == CHIP8_STACK
        &&& self.reg_sp <= CHIP8_STACK
        &&& self.keypad.len() == 16
    }
}

impl View for Processor {
    type V = Chip8State;

    open spec fn view(&self) -> Chip8State {
        Chip8State {
            ram: self.ram@,
            vram: frame_view(self.vram),
            vram_changed: self.vram_changed,
            reg_v: self.reg_v@,
            stack: self.stack@,
            reg_i: self.reg_i,
            reg_pc: self.reg_pc,
            reg_sp: self.reg_sp,
            reg_dt: self.reg_dt,
            timer_cycle: self.timer_cycle,
            keypad: self.keypad@,
        }
    }
}

/// Memory right after construction: the font table, then zeros.
pub open spec fn initial_ram() -> Seq<u8> {
    FONT_SET@ + Seq::new((CHIP8_RAM - FONT_LEN) as nat, |i: int| 0u8)
}

/// Number of program bytes that fit in memory out of `k`.
pub open spec fn loaded_len(k: int) -> int {
    if k <= CHIP8_RAM - PROGRAM_BASE { k } else { CHIP8_RAM - PROGRAM_BASE }
}

/// Memory after loading `data` at the program base: bytes past the end are dropped.
pub open spec fn loaded_ram(ram: Seq<u8>, data: Seq<u8>) -> Seq<u8> {
    let m = loaded_len(data.len() as int);
    ram.subrange(0, PROGRAM_BASE as int) + data.subrange(0, m) + ram.subrange(
        PROGRAM_BASE + m,
        CHIP8_RAM as int,
    )
}

/// The state with register `x` set to `v`.
pub open spec fn set_reg(s: Chip8State, x: int, v: u8) -> Chip8State {
    Chip8State { reg_v: s.reg_v.update(x, v), ..s }
}

/// Eight-bit sum that wraps around past 255.
pub open spec fn wrapping_add_u8(a: u8, b: u8) -> u8 {
    ((a + b) % 256) as u8
}

/// Left shift of a byte by `a` places; every bit leaves once `a` reaches 8.
pub open spec fn shl_u8(v: u8, a: u8) -> u8 {
    if a < 8 { v << a } else { 0 }
}

/// Right shift of a byte by `a` places; every bit leaves once `a` reaches 8.
pub open spec fn shr_u8(v: u8, a: u8) -> u8 {
    if a < 8 { v >> a } else { 0 }
}

/// Call: push the address after the call and jump, unless the stack is full.
pub open spec fn call_spec(s: Chip8State, addr: usize) -> (Chip8State, Result<ProgramCounter, Chip8Error>) {
    if s.reg_sp >= CHIP8_STACK {
        (s, Err(Chip8Error::StackOverflow))
    } else {
        (
            Chip8State {
                stack: s.stack.update(s.reg_sp as int, (s.reg_pc + CHIP8_OPCODE_SIZE) as usize),
                reg_sp: (s.reg_sp + 1) as usize,
                ..s
            },
            Ok(ProgramCounter::Jump(addr)),
        )
    }
}

/// Return: pop the top address, clear its slot and jump there, unless the stack is empty.
pub open spec fn return_spec(s: Chip8State) -> (Chip8State, Result<ProgramCounter, Chip8Error>) {
    if s.reg_sp == 0 {
        (s, Err(Chip8Error::StackUnderflow))
    } else {
        let top = (s.reg_sp - 1) as usize;
        (
            Chip8State { stack: s.stack.update(top as int, 0), reg_sp: top, ..s },
            Ok(ProgramCounter::Jump(s.stack[top as int])),
        )
    }
}

/// Skip when the condition holds, else go on to the next instruction.
pub open spec fn skip_if(c: bool) -> ProgramCounter {
    if c { ProgramCounter::Skip } else { ProgramCounter::Next }
}

/// A frame buffer with every pixel off.
pub open spec fn blank_vram() -> Seq<Seq<u8>> {
    Seq::new(CHIP8_HEIGHT as nat, |y: int| Seq::new(CHIP8_WIDTH as nat, |x: int| 0u8))
}

/// Hundreds, tens and units of register `x` stored at the index register.
pub open spec fn bcd_spec(s: Chip8State, x: int) -> Chip8State {
    let v = s.reg_v[x];
    let i = s.reg_i as int;
    Chip8State {
        ram: s.ram.update(i, v / 100).update(i + 1, (v % 100) / 10).update(i + 2, v % 10),
        ..s
    }
}

/// Registers 0 through `x` loaded from memory at the index register.
pub open spec fn block_load_spec(s: Chip8State, x: int) -> Chip8State {
    Chip8State {
        reg_v: Seq::new(
            CHIP8_REG_V as nat,
            |k: int| if k <= x { s.ram[s.reg_i + k] } else { s.reg_v[k] },
        ),
        ..s
    }
}

/// Shift left of register `x`: the flag takes its top bit, then it shifts by one
/// when `y == x`, else by the value of register `y`.
pub open spec fn shl_spec(s: Chip8State, x: int, y: int) -> Chip8State {
    let s1 = set_reg(s, FLAG_REG as int, (s.reg_v[x] & 0x80) >> 7u8);
    let amount = if x == y { 1u8 } else { s1.reg_v[y] };
    set_reg(s1, x, shl_u8(s1.reg_v[x], amount))
}

/// Shift right of register `x`: the flag takes its low bit, then it shifts by one
/// when `y == x`, else by the value of register `y`.
pub open spec fn shr_spec(s: Chip8State, x: int, y: int) -> Chip8State {
    let s1 = set_reg(s, FLAG_REG as int, s.reg_v[x] & 1);
    let amount = if x == y { 1u8 } else { s1.reg_v[y] };
    set_reg(s1, x, shr_u8(s1.reg_v[x], amount))
}

/// Pixel `k` (0 is leftmost) of a sprite row: 1 when set, else 0.
pub open spec fn sprite_bit(row: u8, k: int) -> u8 {
    (row >> ((7 - k) as u8)) & 1u8
}

/// Whether pixel (x, y) lies under an `n`-row sprite placed at (x0, y0).
pub open spec fn covers(x0: int, y0: int, n: int, x: int, y: int) -> bool {
    y0 <= y < y0 + n && x0 <= x < x0 + 8
}

/// The sprite's pixel over (x, y), for a sprite read at the index register and placed at (x0, y0).
pub open spec fn sprite_pixel(s: Chip8State, x0: int, y0: int, x: int, y: int) -> u8 {
    sprite_bit(s.ram[s.reg_i + (y - y0)], x - x0)
}

/// Row `y` of the frame buffer after the sprite is XORed in; pixels off the screen are dropped.
pub open spec fn drawn_row(s: Chip8State, x0: int, y0: int, n: int, y: int) -> Seq<u8> {
    Seq::new(
        CHIP8_WIDTH as nat,
        |x: int|
            if covers(x0, y0, n, x, y) {
                s.vram[y][x] ^ sprite_pixel(s, x0, y0, x, y)
            } else {
                s.vram[y][x]
            },
    )
}

/// The frame buffer after the sprite is XORed in.
pub open spec fn drawn_vram(s: Chip8State, x0: int, y0: int, n: int) -> Seq<Seq<u8>> {
    Seq::new(CHIP8_HEIGHT as nat, |y: int| drawn_row(s, x0, y0, n, y))
}

/// Whether drawing turns off the lit on-screen pixel (x, y).
pub open spec fn hit(s: Chip8State, x0: int, y0: int, n: int, x: int, y: int) -> bool {
    &&& 0 <= x < CHIP8_WIDTH
    &&& 0 <= y < CHIP8_HEIGHT
    &&& covers(x0, y0, n, x, y)
    &&& s.vram[y][x] & sprite_pixel(s, x0, y0, x, y) != 0
}

/// Whether the sprite collides with any lit pixel.
pub open spec fn collides(s: Chip8State, x0: int, y0: int, n: int) -> bool {
    exists|x: int, y: int| #[trigger] hit(s, x0, y0, n, x, y)
}

/// Number of leading sprite rows that reach the screen; only these are read from memory.
pub open spec fn visible_rows(x0: int, y0: int, n: int) -> int {
    if x0 < CHIP8_WIDTH && y0 < CHIP8_HEIGHT {
        if n < CHIP8_HEIGHT - y0 { n } else { CHIP8_HEIGHT - y0 }
    } else {
        0
    }
}

/// Every sprite row that reaches the screen lies in memory.
pub open spec fn sprite_readable(s: Chip8State, x0: int, y0: int, n: int) -> bool {
    s.reg_i + visible_rows(x0, y0, n) <= CHIP8_RAM
}

/// Draw an `n`-row sprite from the index register at the position held in
/// registers `x` and `y`; the flag records a collision and the buffer is marked changed.
pub open spec fn draw_spec(s: Chip8State, x: int, y: int, n: int) -> Chip8State {
    let x0 = s.reg_v[x] as int;
    let y0 = s.reg_v[y] as int;
    Chip8State {
        vram: drawn_vram(s, x0, y0, n),
        reg_v: s.reg_v.update(FLAG_REG as int, if collides(s, x0, y0, n) { 1u8 } else { 0u8 }),
        vram_changed: true,
        ..s
    }
}

/// A frame buffer as a sequence of rows.
pub open spec fn frame_view(v: [[u8; 64]; 32]) -> Seq<Seq<u8>> {
    Seq::new(CHIP8_HEIGHT as nat, |y: int| v@[y]@)
}

/// The delay timer after `delta` nanoseconds: the accumulator grows (saturating),
/// and the counter drops by one when it is above zero and the accumulator has
/// reached one period. The accumulator is never reset.
pub open spec fn timer_spec(s: Chip8State, delta: u64) -> Chip8State {
    let sum = s.timer_cycle + delta;
    let cycle: u64 = if sum > u64::MAX { u64::MAX } else { sum as u64 };
    Chip8State {
        timer_cycle: cycle,
        reg_dt: if s.reg_dt > 0 && cycle >= TIMER_PERIOD_NANOS { (s.reg_dt - 1) as u8 } else { s.reg_dt },
        ..s
    }
}

/// The big-endian instruction word at `pc`.
pub open spec fn opcode_at(ram: Seq<u8>, pc: int) -> u16 {
    (ram[pc] * 256 + ram[pc + 1]) as u16
}

/// The four 4-bit fields of an instruction word, most significant first.
pub open spec fn nibbles(op: u16) -> (int, int, int, int) {
    let w = op as int;
    (w / 4096, (w / 256) % 16, (w / 16) % 16, w % 16)
}

/// The outcome of one instruction word: the next state, and how the counter moves
/// or which fault stops execution. `rnd` is the byte that the random instruction masks.
/// A fault leaves the state unchanged.
pub open spec fn step(s: Chip8State, op: u16, rnd: u8) -> (Chip8State, Result<ProgramCounter, Chip8Error>) {
    let (n0, x, y, n) = nibbles(op);
    let kk = (op % 256) as u8;
    let addr = (op % 4096) as usize;
    if op == 0x00EE {
        return_spec(s)
    } else if op == 0x00E0 {
        (Chip8State { vram: blank_vram(), vram_changed: true, ..s }, Ok(ProgramCounter::Next))
    } else if n0 == 0x1 {
        (s, Ok(ProgramCounter::Jump(addr)))
    } else if n0 == 0x2 {
        call_spec(s, addr)
    } else if n0 == 0x3 {
        (s, Ok(skip_if(s.reg_v[x] == kk)))
    } else if n0 == 0x6 {
        (set_reg(s, x, kk), Ok(ProgramCounter::Next))
    } else if n0 == 0x7 {
        (set_reg(s, x, wrapping_add_u8(s.reg_v[x], kk)), Ok(ProgramCounter::Next))
    } else if n0 == 0x8 && n == 0xE {
        (shl_spec(s, x, y), Ok(ProgramCounter::Next))
    } else if n0 == 0x8 && n == 0x6 {
        (shr_spec(s, x, y), Ok(ProgramCounter::Next))
    } else if n0 == 0xA {
        (Chip8State { reg_i: addr, ..s }, Ok(ProgramCounter::Next))
    } else if n0 == 0xD {
        if sprite_readable(s, s.reg_v[x] as int, s.reg_v[y] as int, n) {
            (draw_spec(s, x, y, n), Ok(ProgramCounter::Next))
        } else {
            (s, Err(Chip8Error::AddressOutOfRange(s.reg_i)))
        }
    } else if n0 == 0xE && y == 0xA && n == 0x1 {
        if s.reg_v[x] < 16 {
            (s, Ok(skip_if(!s.keypad[s.reg_v[x] as int])))
        } else {
            (s, Err(Chip8Error::InvalidKey(s.reg_v[x])))
        }
    } else if n0 == 0xC {
        (set_reg(s, x, rnd & kk), Ok(ProgramCounter::Next))
    } else if n0 == 0xF && y == 0x1 && n == 0x5 {
        (Chip8State { reg_dt: s.reg_v[x], ..s }, Ok(ProgramCounter::Next))
    } else if n0 == 0xF && y == 0x2 && n == 0x9 {
        (Chip8State { reg_i: (FONT_GLYPH_BYTES * s.reg_v[x]) as usize, ..s }, Ok(ProgramCounter::Next))
    } else if n0 == 0xF && y == 0x3 && n == 0x3 {
        if s.reg_i + 2 < CHIP8_RAM {
            (bcd_spec(s, x), Ok(ProgramCounter::Next))
        } else {
            (s, Err(Chip8Error::AddressOutOfRange(s.reg_i)))
        }
    } else if n0 == 0xF && y == 0x6 && n == 0x5 {
        if s.reg_i + x < CHIP8_RAM {
            (block_load_spec(s, x), Ok(ProgramCounter::Next))
        } else {
            (s, Err(Chip8Error::AddressOutOfRange(s.reg_i)))
        }
    } else if n0 == 0xF && y == 0x0 && n == 0x7 {
        (set_reg(s, x, s.reg_dt), Ok(ProgramCounter::Next))
    } else {
        (s, Err(Chip8Error::UnknownOpcode(op)))
    }
}

/// Whether the instruction word is the random-mask instruction.
pub open spec fn is_random_op(op: u16) -> bool {
    op / 4096 == 0xC
}

/// The counter after an instruction at `pc` that asked for `c`.
pub open spec fn advance(pc: usize, c: ProgramCounter) -> usize {
    match c {
        ProgramCounter::Next => (pc + CHIP8_OPCODE_SIZE) as usize,
        ProgramCounter::Skip => (pc + 2 * CHIP8_OPCODE_SIZE) as usize,
        ProgramCounter::Jump(a) => a,
    }
}

/// One tick: take the keypad snapshot, clear the changed mark, run the timer,
/// fetch the word at the counter, execute it and move the counter.
pub open spec fn tick_spec(s: Chip8State, delta: u64, keypad: Seq<bool>, rnd: u8) -> (Chip8State, Result<ProgramCounter, Chip8Error>) {
    let s1 = timer_spec(Chip8State { keypad: keypad, vram_changed: false, ..s }, delta);
    if s1.reg_pc + 1 >= CHIP8_RAM {
        (s1, Err(Chip8Error::AddressOutOfRange(s1.reg_pc)))
    } else {
        let (s2, r) = step(s1, opcode_at(s1.ram, s1.reg_pc as int), rnd);
        match r {
            Ok(c) => (Chip8State { reg_pc: advance(s2.reg_pc, c), ..s2 }, Ok(c)),
            Err(e) => (s2, Err(e)),
        }
    }
}

/// Whether a tick that left state `t` and returned `r` is the outcome `o` of `tick_spec`.
pub open spec fn tick_matches(t: Chip8State, r: Result<OutputState, Chip8Error>, o: (Chip8State, Result<ProgramCounter, Chip8Error>)) -> bool {
    &&& t == o.0
    &&& match r {
        Ok(out) => o.1 is Ok && frame_view(out.vram) == t.vram && out.vram_changed == t.vram_changed,
        Err(e) => o.1 == Err::<ProgramCounter, Chip8Error>(e),
    }
}

/// Relies on rand::random: a byte from the thread-local generator. Nothing is known of its value.
#[verifier::external_body]
fn random_byte() -> u8 {
    rand::random::<u8>()
}

impl Processor {
    /// Well-formedness: the stack pointer stays within the stack.
    pub open spec fn wf(&self) -> bool {
        self.reg_sp <= CHIP8_STACK
    }

    /// A processor with the font table in memory, every other byte,
    /// register, stack slot and pixel zero, and the counter at the program base.
    pub fn new() -> (r: Self)
        ensures
            r.wf(),
            r@.ram == initial_ram(),
            r@.ram.subrange(0, FONT_LEN as int) == FONT_SET@,
            forall|y: int, x: int|
                0 <= y < CHIP8_HEIGHT && 0 <= x < CHIP8_WIDTH ==> #[trigger] r@.vram[y][x] == 0,
            !r.vram_changed,
            forall|k: int| 0 <= k < CHIP8_REG_V ==> #[trigger] r.reg_v@[k] == 0,
            forall|k: int| 0 <= k < CHIP8_STACK ==> #[trigger] r.stack@[k] == 0,
            forall|k: int| 0 <= k < 16 ==> !#[trigger] r.keypad@[k],
            r.reg_i == 0,
            r.reg_pc == PROGRAM_BASE,
            r.reg_sp == 0,
            r.reg_dt == 0,
            r.timer_cycle == 0,
    {
        let mut ram = [0u8; 4096];
        let mut i: usize = 0;
        while i < FONT_LEN
            invariant
                i <= FONT_LEN,
                forall|k: int| 0 <= k < i ==> ram@[k] == FONT_SET@[k],
                forall|k: int| i <= k < CHIP8_RAM ==> ram@[k] == 0,
            decreases FONT_LEN - i,
        {
            ram[i] = FONT_SET[i];
            i = i + 1;
        }
        let r = Processor {
            ram,
            vram: [[0u8; 64]; 32],
            vram_changed: false,
            reg_v: [0u8; 16],
            stack: [0usize; 16],
            reg_i: 0,
            reg_pc: PROGRAM_BASE,
            reg_sp: 0,
            reg_dt: 0,
            timer_cycle: 0,
            keypad: [false; 16],
        };
        assert(r@.ram =~= initial_ram());
        assert(r@.ram.subrange(0, FONT_LEN as int) =~= FONT_SET@);
        r
    }

    /// Puts the counter back at the program base and empties the stack;
    /// memory and registers are kept.
    pub fn reset_pc(&mut self)
        ensures
            final(self)@ == (Chip8State { reg_pc: PROGRAM_BASE, reg_sp: 0, ..old(self)@ }),
    {
        self.reg_pc = PROGRAM_BASE;
        self.reg_sp = 0;
    }

    /// Copies `data` into memory from the program base on; bytes that would
    /// fall past the end of memory are dropped.
    pub fn load(&mut self, data: &[u8])
        ensures
            final(self)@ == (Chip8State { ram: loaded_ram(old(self)@.ram, data@), ..old(self)@ }),
    {
        let ghost m = loaded_len(data@.len() as int);
        let mut i: usize = 0;
        while i < data.len()
            invariant
                i <= data@.len(),
                i <= m,
                m == loaded_len(data@.len() as int),
                self@ == (Chip8State { ram: self@.ram, ..old(self)@ }),
                forall|k: int| 0 <= k < CHIP8_RAM && !(PROGRAM_BASE <= k < PROGRAM_BASE + i)
                    ==> self.ram@[k] == old(self).ram@[k],
                forall|k: int| PROGRAM_BASE <= k < PROGRAM_BASE + i ==> self.ram@[k] == data@[k - PROGRAM_BASE],
            ensures
                i == m,
                self@ == (Chip8State { ram: self@.ram, ..old(self)@ }),
                forall|k: int| 0 <= k < CHIP8_RAM && !(PROGRAM_BASE <= k < PROGRAM_BASE + i)
                    ==> self.ram@[k] == old(self).ram@[k],
                forall|k: int| PROGRAM_BASE <= k < PROGRAM_BASE + i ==> self.ram@[k] == data@[k - PROGRAM_BASE],
            decreases data@.len() - i,
        {
            let addr = PROGRAM_BASE + i;
            if addr < CHIP8_RAM {
                self.ram[addr] = data[i];
            } else {
                break;
            }
            i = i + 1;
        }
        assert(self@.ram =~= loaded_ram(old(self)@.ram, data@));
    }
    /// Jump: continue at `addr`.
    pub fn op_1nnn(&mut self, addr: usize) -> (r: ProgramCounter)
        ensures
            final(self)@ == old(self)@,
            r == ProgramCounter::Jump(addr),
    {
        ProgramCounter::Jump(addr)
    }

    /// Call the subroutine at `addr`.
    pub fn op_2nnn(&mut self, addr: usize) -> (r: Result<ProgramCounter, Chip8Error>)
        requires
            old(self).wf(),
            old(self).reg_pc + CHIP8_OPCODE_SIZE <= usize::MAX,
        ensures
            final(self).wf(),
            (final(self)@, r) == call_spec(old(self)@, addr),
    {
        if self.reg_sp >= CHIP8_STACK {
            return Err(Chip8Error::StackOverflow);
        }
        self.stack[self.reg_sp] = self.reg_pc + CHIP8_OPCODE_SIZE;
        self.reg_sp = self.reg_sp + 1;
        Ok(ProgramCounter::Jump(addr))
    }

    /// Return from a subroutine.
    pub fn op_00ee(&mut self) -> (r: Result<ProgramCounter, Chip8Error>)
        requires
            old(self).wf(),
        ensures
            final(self).wf(),
            (final(self)@, r) == return_spec(old(self)@),
    {
        if self.reg_sp == 0 {
            return Err(Chip8Error::StackUnderflow);
        }
        self.reg_sp = self.reg_sp - 1;
        let addr = self.stack[self.reg_sp];
        self.stack[self.reg_sp] = 0;
        Ok(ProgramCounter::Jump(addr))
    }

    /// Set register `vx` to `kk`.
    pub fn op_6xkk(&mut self, vx: usize, kk: u8) -> (r: ProgramCounter)
        requires
            vx < CHIP8_REG_V,
        ensures
            final(self)@ == set_reg(old(self)@, vx as int, kk),
            final(self).reg_v@[vx as int] == kk,
            r == ProgramCounter::Next,
    {
        self.reg_v[vx] = kk;
        ProgramCounter::Next
    }

    /// Add `kk` to register `vx`, wrapping past 255; the flag is untouched.
    pub fn op_7xkk(&mut self, vx: usize, kk: u8) -> (r: ProgramCounter)
        requires
            vx < CHIP8_REG_V,
        ensures
            final(self)@ == set_reg(old(self)@, vx as int, wrapping_add_u8(old(self).reg_v@[vx as int], kk)),
            r == ProgramCounter::Next,
    {
        self.reg_v[vx] = self.reg_v[vx].wrapping_add(kk);
        ProgramCounter::Next
    }

    /// Set the index register to `addr`.
    pub fn op_annn(&mut self, addr: usize) -> (r: ProgramCounter)
        ensures
            final(self)@ == (Chip8State { reg_i: addr, ..old(self)@ }),
            r == ProgramCounter::Next,
    {
        self.reg_i = addr;
        ProgramCounter::Next
    }

    /// Store the decimal digits of register `vx` at the index register.
    pub fn op_fx33(&mut self, vx: usize) -> (r: ProgramCounter)
        requires
            vx < CHIP8_REG_V,
            old(self).reg_i + 2 < CHIP8_RAM,
        ensures
            final(self)@ == bcd_spec(old(self)@, vx as int),
            r == ProgramCounter::Next,
    {
        let x = self.reg_v[vx];
        let i = self.reg_i;
        self.ram[i] = x / 100;
        self.ram[i + 1] = (x % 100) / 10;
        self.ram[i + 2] = x % 10;
        ProgramCounter::Next
    }

    /// Load registers 0 through `vx` from memory at the index register.
    pub fn op_fx65(&mut self, vx: usize) -> (r: ProgramCounter)
        requires
            vx < CHIP8_REG_V,
            old(self).reg_i + vx < CHIP8_RAM,
        ensures
            final(self)@ == block_load_spec(old(self)@, vx as int),
            r == ProgramCounter::Next,
    {
        let mut k: usize = 0;
        while k <= vx
            invariant
                vx < CHIP8_REG_V,
                k <= vx + 1,
                self.reg_i + vx < CHIP8_RAM,
                self@ == (Chip8State { reg_v: self@.reg_v, ..old(self)@ }),
                forall|j: int| 0 <= j < CHIP8_REG_V ==> #[trigger] self.reg_v@[j] == if j < k {
                    old(self).ram@[old(self).reg_i + j]
                } else {
                    old(self).reg_v@[j]
                },
            decreases vx + 1 - k,
        {
            self.reg_v[k] = self.ram[self.reg_i + k];
            k = k + 1;
        }
        assert(self@.reg_v =~= block_load_spec(old(self)@, vx as int).reg_v);
        ProgramCounter::Next
    }

    /// Point the index register at the font sprite of the digit in register `vx`.
    pub fn op_fx29(&mut self, vx: usize) -> (r: ProgramCounter)
        requires
            vx < CHIP8_REG_V,
        ensures
            final(self)@ == (Chip8State {
                reg_i: (FONT_GLYPH_BYTES * old(self).reg_v@[vx as int]) as usize,
                ..old(self)@
            }),
            r == ProgramCounter::Next,
    {
        self.reg_i = FONT_GLYPH_BYTES * (self.reg_v[vx] as usize);
        ProgramCounter::Next
    }

    /// Clear the frame buffer.
    pub fn op_00e0(&mut self) -> (r: ProgramCounter)
        ensures
            final(self)@ == (Chip8State { vram: blank_vram(), vram_changed: true, ..old(self)@ }),
            r == ProgramCounter::Next,
    {
        self.vram = [[0u8; 64]; 32];
        self.vram_changed = true;
        assert(self@.vram =~= blank_vram()) by {
            assert forall|y: int| 0 <= y < CHIP8_HEIGHT implies self@.vram[y] =~= blank_vram()[y] by {}
        }
        ProgramCounter::Next
    }

    /// Set the delay timer from register `vx`.
    pub fn op_fn15(&mut self, vx: usize) -> (r: ProgramCounter)
        requires
            vx < CHIP8_REG_V,
        ensures
            final(self)@ == (Chip8State { reg_dt: old(self).reg_v@[vx as int], ..old(self)@ }),
            r == ProgramCounter::Next,
    {
        self.reg_dt = self.reg_v[vx];
        ProgramCounter::Next
    }

    /// Copy the delay timer into register `vx`.
    pub fn op_fx07(&mut self, vx: usize) -> (r: ProgramCounter)
        requires
            vx < CHIP8_REG_V,
        ensures
            final(self)@ == set_reg(old(self)@, vx as int, old(self).reg_dt),
            r == ProgramCounter::Next,
    {
        self.reg_v[vx] = self.reg_dt;
        ProgramCounter::Next
    }

    /// Skip the next instruction when register `vx` equals `kk`.
    pub fn op_3xkk(&mut self, vx: usize, kk: u8) -> (r: ProgramCounter)
        requires
            vx < CHIP8_REG_V,
        ensures
            final(self)@ == old(self)@,
            r == skip_if(old(self).reg_v@[vx as int] == kk),
    {
        if self.reg_v[vx] == kk {
            ProgramCounter::Skip
        } else {
            ProgramCounter::Next
        }
    }

    /// Skip the next instruction when the key named by register `vx` is not pressed.
    pub fn op_exa1(&mut self, vx: usize) -> (r: ProgramCounter)
        requires
            vx < CHIP8_REG_V,
            old(self).reg_v@[vx as int] < 16,
        ensures
            final(self)@ == old(self)@,
            r == skip_if(!old(self).keypad@[old(self).reg_v@[vx as int] as int]),
    {
        if !self.keypad[self.reg_v[vx] as usize] {
            ProgramCounter::Skip
        } else {
            ProgramCounter::Next
        }
    }

    /// Shift register `vx` left (see `shl_spec`).
    pub fn op_8xye(&mut self, vx: usize, vy: usize) -> (r: ProgramCounter)
        requires
            vx < CHIP8_REG_V,
            vy < CHIP8_REG_V,
        ensures
            final(self)@ == shl_spec(old(self)@, vx as int, vy as int),
            r == ProgramCounter::Next,
    {
        self.reg_v[FLAG_REG] = (self.reg_v[vx] & 0x80) >> 7u8;
        let v = self.reg_v[vx];
        let amount = if vx == vy { 1u8 } else { self.reg_v[vy] };
        self.reg_v[vx] = if amount < 8 { v << amount } else { 0 };
        ProgramCounter::Next
    }

    /// Shift register `vx` right (see `shr_spec`).
    pub fn op_8xy6(&mut self, vx: usize, vy: usize) -> (r: ProgramCounter)
        requires
            vx < CHIP8_REG_V,
            vy < CHIP8_REG_V,
        ensures
            final(self)@ == shr_spec(old(self)@, vx as int, vy as int),
            r == ProgramCounter::Next,
    {
        self.reg_v[FLAG_REG] = self.reg_v[vx] & 1;
        let v = self.reg_v[vx];
        let amount = if vx == vy { 1u8 } else { self.reg_v[vy] };
        self.reg_v[vx] = if amount < 8 { v >> amount } else { 0 };
        ProgramCounter::Next
    }
    /// Draw an `n`-row sprite from the index register at (register `vx`, register `vy`).
    pub fn op_dxyn(&mut self, vx: usize, vy: usize, n: u8) -> (r: ProgramCounter)
        requires
            vx < CHIP8_REG_V,
            vy < CHIP8_REG_V,
            sprite_readable(
                old(self)@,
                old(self).reg_v@[vx as int] as int,
                old(self).reg_v@[vy as int] as int,
                n as int,
            ),
        ensures
            final(self)@ == draw_spec(old(self)@, vx as int, vy as int, n as int),
            r == ProgramCounter::Next,
    {
        let ghost s0 = self@;
        let x0 = self.reg_v[vx] as usize;
        let y0 = self.reg_v[vy] as usize;
        let rows = n as usize;
        let mut collision = false;
        let mut row: usize = 0;
        while row < rows
            invariant
                s0 == old(self)@,
                x0 == s0.reg_v[vx as int],
                y0 == s0.reg_v[vy as int],
                rows == n,
                row <= rows,
                s0.ram.len() == CHIP8_RAM,
                s0.reg_v.len() == CHIP8_REG_V,
                sprite_readable(s0, x0 as int, y0 as int, rows as int),
                self@ == (Chip8State { vram: self@.vram, ..s0 }),
                forall|y: int| 0 <= y < CHIP8_HEIGHT ==> #[trigger] self@.vram[y] == if y < y0 + row {
                    drawn_row(s0, x0 as int, y0 as int, rows as int, y)
                } else {
                    s0.vram[y]
                },
                collision <==> exists|x: int, y: int|
                    y < y0 + row && #[trigger] hit(s0, x0 as int, y0 as int, rows as int, x, y),
            decreases rows - row,
        {
            let y = y0 + row;
            if y < CHIP8_HEIGHT && x0 < CHIP8_WIDTH {
                let byte = self.ram[self.reg_i + row];
                let mut line = self.vram[y];
                assert(self@.vram[y as int] == s0.vram[y as int]);
                assert(line@ == s0.vram[y as int]);
                let mut bit: usize = 0;
                while bit < 8
                    invariant
                        s0 == old(self)@,
                        x0 == s0.reg_v[vx as int],
                        y0 == s0.reg_v[vy as int],
                        rows == n,
                        row < rows,
                        s0.ram.len() == CHIP8_RAM,
                        s0.reg_v.len() == CHIP8_REG_V,
                        y == y0 + row,
                        y < CHIP8_HEIGHT,
                        bit <= 8,
                        byte == s0.ram[s0.reg_i + row],
                        self@ == (Chip8State { vram: self@.vram, ..s0 }),
                        forall|x: int| 0 <= x < CHIP8_WIDTH ==> #[trigger] line@[x] == if x < x0 + bit {
                            drawn_row(s0, x0 as int, y0 as int, rows as int, y as int)[x]
                        } else {
                            s0.vram[y as int][x]
                        },
                        collision <==> exists|x: int, yy: int|
                            (yy < y || (yy == y && x < x0 + bit)) && #[trigger] hit(
                                s0,
                                x0 as int,
                                y0 as int,
                                rows as int,
                                x,
                                yy,
                            ),
                    decreases 8 - bit,
                {
                    let x = x0 + bit;
                    if x < CHIP8_WIDTH {
                        let color = (byte >> ((7 - bit) as u8)) & 1u8;
                        assert(color == sprite_pixel(s0, x0 as int, y0 as int, x as int, y as int));
                        if line[x] & color != 0 {
                            assert(hit(s0, x0 as int, y0 as int, rows as int, x as int, y as int));
                            collision = true;
                        }
                        line[x] = line[x] ^ color;
                    }
                    bit = bit + 1;
                }
                assert(line@ =~= drawn_row(s0, x0 as int, y0 as int, rows as int, y as int));
                let ghost before = self@.vram;
                self.vram[y] = line;
                assert(self@.vram =~= before.update(y as int, line@));
            } else {
                assert forall|y: int| 0 <= y < CHIP8_HEIGHT && y == y0 + row implies
                    drawn_row(s0, x0 as int, y0 as int, rows as int, y) =~= s0.vram[y] by {}
            }
            row = row + 1;
        }
        assert forall|y: int| 0 <= y < CHIP8_HEIGHT implies #[trigger] self@.vram[y] == drawn_row(
            s0,
            x0 as int,
            y0 as int,
            rows as int,
            y,
        ) by {
            if y >= y0 + rows {
                assert(drawn_row(s0, x0 as int, y0 as int, rows as int, y) =~= s0.vram[y]);
            }
        }
        self.reg_v[FLAG_REG] = if collision { 1 } else { 0 };
        self.vram_changed = true;
        assert(self@.vram =~= drawn_vram(s0, x0 as int, y0 as int, rows as int));
        assert(collision == collides(s0, x0 as int, y0 as int, rows as int));
        ProgramCounter::Next
    }
    /// Set register `vx` to the byte `rnd` masked by `kk`.
    pub fn op_cxkk_with(&mut self, vx: usize, kk: u8, rnd: u8) -> (r: ProgramCounter)
        requires
            vx < CHIP8_REG_V,
        ensures
            final(self)@ == set_reg(old(self)@, vx as int, rnd & kk),
            r == ProgramCounter::Next,
    {
        self.reg_v[vx] = rnd & kk;
        ProgramCounter::Next
    }

    /// Set register `vx` to a random byte masked by `kk`.
    pub fn op_cxkk(&mut self, vx: usize, kk: u8) -> (r: ProgramCounter)
        requires
            vx < CHIP8_REG_V,
        ensures
            exists|b: u8| final(self)@ == #[trigger] set_reg(old(self)@, vx as int, b & kk),
            r == ProgramCounter::Next,
    {
        let b = random_byte();
        let r = self.op_cxkk_with(vx, kk, b);
        assert(final(self)@ == set_reg(old(self)@, vx as int, b & kk));
        r
    }

    /// Add `delta` nanoseconds to the timer accumulator and count the delay timer down.
    pub fn update_delay_timer(&mut self, delta: u64)
        ensures
            final(self)@ == timer_spec(old(self)@, delta),
    {
        self.timer_cycle = self.timer_cycle.saturating_add(delta);
        if self.reg_dt > 0 && self.timer_cycle >= TIMER_PERIOD_NANOS {
            self.reg_dt = self.reg_dt - 1;
        }
    }

    /// The big-endian instruction word at the program counter.
    pub fn read_opcode(&self) -> (r: u16)
        requires
            self.reg_pc + 1 < CHIP8_RAM,
        ensures
            r == opcode_at(self@.ram, self.reg_pc as int),
    {
        let hi = self.ram[self.reg_pc] as u16;
        let lo = self.ram[self.reg_pc + 1] as u16;
        hi * 256 + lo
    }
    /// Decode and run one instruction word, with `rnd` as the byte that the
    /// random instruction masks. A fault leaves the state unchanged.
    pub fn execute(&mut self, opcode: u16, rnd: u8) -> (r: Result<ProgramCounter, Chip8Error>)
        requires
            old(self).wf(),
            old(self).reg_pc + CHIP8_OPCODE_SIZE <= usize::MAX,
        ensures
            final(self).wf(),
            (final(self)@, r) == step(old(self)@, opcode, rnd),
    {
        let n0 = opcode / 4096;
        let vx = ((opcode / 256) % 16) as usize;
        let vy = ((opcode / 16) % 16) as usize;
        let n = (opcode % 16) as u8;
        let kk = (opcode % 256) as u8;
        let addr = (opcode % 4096) as usize;
        assert(nibbles(opcode) == (n0 as int, vx as int, vy as int, n as int));
        if opcode == 0x00EE {
            self.op_00ee()
        } else if opcode == 0x00E0 {
            Ok(self.op_00e0())
        } else if n0 == 0x1 {
            Ok(self.op_1nnn(addr))
        } else if n0 == 0x2 {
            self.op_2nnn(addr)
        } else if n0 == 0x3 {
            Ok(self.op_3xkk(vx, kk))
        } else if n0 == 0x6 {
            Ok(self.op_6xkk(vx, kk))
        } else if n0 == 0x7 {
            Ok(self.op_7xkk(vx, kk))
        } else if n0 == 0x8 && n == 0xE {
            Ok(self.op_8xye(vx, vy))
        } else if n0 == 0x8 && n == 0x6 {
            Ok(self.op_8xy6(vx, vy))
        } else if n0 == 0xA {
            Ok(self.op_annn(addr))
        } else if n0 == 0xD {
            let x0 = self.reg_v[vx] as usize;
            let y0 = self.reg_v[vy] as usize;
            let rows = n as usize;
            let visible = if x0 < CHIP8_WIDTH && y0 < CHIP8_HEIGHT {
                if rows < CHIP8_HEIGHT - y0 { rows } else { CHIP8_HEIGHT - y0 }
            } else {
                0
            };
            if self.reg_i <= CHIP8_RAM - visible {
                Ok(self.op_dxyn(vx, vy, n))
            } else {
                Err(Chip8Error::AddressOutOfRange(self.reg_i))
            }
        } else if n0 == 0xE && vy == 0xA && n == 0x1 {
            if self.reg_v[vx] < 16 {
                Ok(self.op_exa1(vx))
            } else {
                Err(Chip8Error::InvalidKey(self.reg_v[vx]))
            }
        } else if n0 == 0xC {
            Ok(self.op_cxkk_with(vx, kk, rnd))
        } else if n0 == 0xF && vy == 0x1 && n == 0x5 {
            Ok(self.op_fn15(vx))
        } else if n0 == 0xF && vy == 0x2 && n == 0x9 {
            Ok(self.op_fx29(vx))
        } else if n0 == 0xF && vy == 0x3 && n == 0x3 {
            if self.reg_i < CHIP8_RAM - 2 {
                Ok(self.op_fx33(vx))
            } else {
                Err(Chip8Error::AddressOutOfRange(self.reg_i))
            }
        } else if n0 == 0xF && vy == 0x6 && n == 0x5 {
            if self.reg_i < CHIP8_RAM - vx {
                Ok(self.op_fx65(vx))
            } else {
                Err(Chip8Error::AddressOutOfRange(self.reg_i))
            }
        } else if n0 == 0xF && vy == 0x0 && n == 0x7 {
            Ok(self.op_fx07(vx))
        } else {
            Err(Chip8Error::UnknownOpcode(opcode))
        }
    }

    /// Decode and run one instruction word. Only the random instruction draws a
    /// byte; for every other word the outcome is `step` with any byte.
    pub fn run_opcode(&mut self, opcode: u16) -> (r: Result<ProgramCounter, Chip8Error>)
        requires
            old(self).wf(),
            old(self).reg_pc + CHIP8_OPCODE_SIZE <= usize::MAX,
        ensures
            final(self).wf(),
            exists|b: u8| (final(self)@, r) == #[trigger] step(old(self)@, opcode, b),
            !is_random_op(opcode) ==> (final(self)@, r) == step(old(self)@, opcode, 0),
    {
        let b = if opcode / 4096 == 0xC { random_byte() } else { 0 };
        let r = self.execute(opcode, b);
        assert((final(self)@, r) == step(old(self)@, opcode, b));
        r
    }

    /// One step of the machine: take the keypad snapshot, run the delay timer for
    /// `delta` nanoseconds, then fetch, run and retire the instruction at the counter.
    /// On success, returns a copy of the frame buffer and whether this tick changed it.
    pub fn tick(&mut self, delta: u64, keypad: [bool; 16]) -> (r: Result<OutputState, Chip8Error>)
        requires
            old(self).wf(),
        ensures
            final(self).wf(),
            exists|b: u8| tick_matches(final(self)@, r, #[trigger] tick_spec(old(self)@, delta, keypad@, b)),
            !is_random_op(opcode_at(old(self)@.ram, old(self).reg_pc as int)) ==> tick_matches(
                final(self)@,
                r,
                tick_spec(old(self)@, delta, keypad@, 0),
            ),
    {
        self.keypad = keypad;
        self.vram_changed = false;
        self.update_delay_timer(delta);
        let ghost s1 = self@;
        assert(s1 == timer_spec(Chip8State { keypad: keypad@, vram_changed: false, ..old(self)@ }, delta));
        if self.reg_pc >= CHIP8_RAM - 1 {
            let r = Err(Chip8Error::AddressOutOfRange(self.reg_pc));
            assert(tick_matches(self@, r, tick_spec(old(self)@, delta, keypad@, 0)));
            return r;
        }
        let opcode = self.read_opcode();
        let b = if opcode / 4096 == 0xC { random_byte() } else { 0 };
        let pc = self.reg_pc;
        match self.execute(opcode, b) {
            Ok(c) => {
                self.reg_pc = match c {
                    ProgramCounter::Next => pc + CHIP8_OPCODE_SIZE,
                    ProgramCounter::Skip => pc + 2 * CHIP8_OPCODE_SIZE,
                    ProgramCounter::Jump(a) => a,
                };
                let r = Ok(OutputState { vram: self.vram, vram_changed: self.vram_changed });
                assert(tick_matches(self@, r, tick_spec(old(self)@, delta, keypad@, b)));
                r
            },
            Err(e) => {
                let r = Err(e);
                assert(tick_matches(self@, r, tick_spec(old(self)@, delta, keypad@, b)));
                r
            },
        }
    }
}

} // verus!
