//! The abstract machine state, its well-formedness, and the transition that
//! one instruction makes on it.
use vstd::prelude::*;
use crate::decode::{family, field_n, field_nn, field_nnn, field_x, field_y, word_of};

verus! {

/// Bytes of addressable memory.
pub const MEMORY_SIZE: usize = 4096;
/// Address at which program images are loaded and execution starts.
pub const PROGRAM_START: u16 = 0x200;
/// Framebuffer width in cells.
pub const SCREEN_WIDTH: usize = 64;
/// Framebuffer height in cells.
pub const SCREEN_HEIGHT: usize = 32;
/// Number of framebuffer cells.
pub const FRAME_CELLS: usize = 2048;
/// Number of general registers, and of keys.
pub const REGISTER_COUNT: usize = 16;
/// Capacity of the call stack.
pub const STACK_CAPACITY: usize = 16;

/// Fatal conditions of the machine.
#[derive(Clone, Copy, Debug, PartialEq, Eq, Structural)]
pub enum Chip8Error {
    /// The instruction word `opcode`, fetched at `pc`, matches no operation.
    UnknownOpcode { opcode: u16, pc: u16 },
    /// A call was made with the call stack full.
    CallStackOverflow,
    /// A return was made with the call stack empty.
    CallStackUnderflow,
    /// A program image does not fit in the memory above the program start.
    LoaderOverflow,
}

/// What one cycle did.
#[derive(Clone, Copy, Debug, PartialEq, Eq, Structural)]
pub enum Cycle {
    /// One instruction ran and the timers ticked.
    Completed,
    /// As `Completed`, and the sound timer made its last active tick.
    CompletedWithTone,
    /// A key-wait instruction found no key pressed: nothing changed.
    AwaitingKey,
}

/// The mathematical model of a machine.
#[verifier::ext_equal]
pub struct MachineState {
    pub memory: Seq<u8>,
    pub v: Seq<u8>,
    pub stack: Seq<u16>,
    pub pc: u16,
    pub i: u16,
    pub delay: u8,
    pub sound: u8,
    pub gfx: Seq<bool>,
    pub keys: Seq<bool>,
    pub draw_flag: bool,
}

/// The built-in font: sixteen glyphs of five bytes, glyph `c` at `c * 5`.
pub open spec fn font() -> Seq<u8> {
    seq![
        0xF0u8, 0x90, 0x90, 0x90, 0xF0, 0x20, 0x60, 0x20, 0x20, 0x70,
        0xF0, 0x10, 0xF0, 0x80, 0xF0, 0xF0, 0x10, 0xF0, 0x10, 0xF0,
        0x90, 0x90, 0xF0, 0x10, 0x10, 0xF0, 0x80, 0xF0, 0x10, 0xF0,
        0xF0, 0x80, 0xF0, 0x90, 0xF0, 0xF0, 0x10, 0x20, 0x40, 0x40,
        0xF0, 0x90, 0xF0, 0x90, 0xF0, 0xF0, 0x90, 0xF0, 0x10, 0xF0,
        0xF0, 0x90, 0xF0, 0x90, 0x90, 0xE0, 0x90, 0xE0, 0x90, 0xE0,
        0xF0, 0x80, 0x80, 0x80, 0xF0, 0xE0, 0x90, 0x90, 0x90, 0xE0,
        0xF0, 0x80, 0xF0, 0x80, 0xF0, 0xF0, 0x80, 0xF0, 0x80, 0x80,
    ]
}

/// The address `a` reduced into the 4 KiB address space.
pub open spec fn wrap_addr(a: int) -> int {
    a % 4096
}

/// The address of the instruction that follows the one at `pc`.
pub open spec fn next_pc(pc: u16) -> u16 {
    ((pc + 2) % 4096) as u16
}

impl MachineState {
    pub open spec fn wf(self) -> bool {
        &&& self.memory.len() == 4096
        &&& self.v.len() == 16
        &&& self.stack.len() <= 16
        &&& forall|k: int| 0 <= k < self.stack.len() ==> #[trigger] self.stack[k] < 4096
        &&& self.pc < 4096
        &&& self.i < 4096
        &&& self.gfx.len() == 2048
        &&& self.keys.len() == 16
    }

    /// The state of a freshly built machine.
    pub open spec fn initial() -> MachineState {
        MachineState {
            memory: Seq::new(4096, |a: int| if a < 80 { font()[a] } else { 0u8 }),
            v: Seq::new(16, |k: int| 0u8),
            stack: Seq::empty(),
            pc: 0x200,
            i: 0,
            delay: 0,
            sound: 0,
            gfx: Seq::new(2048, |p: int| false),
            keys: Seq::new(16, |k: int| false),
            draw_flag: false,
        }
    }

    /// The instruction word at the program counter.
    pub open spec fn fetch(self) -> u16 {
        word_of(self.memory[self.pc as int], self.memory[wrap_addr(self.pc + 1)])
    }

    /// The state with the program counter on the next instruction.
    pub open spec fn advance(self) -> MachineState {
        MachineState { pc: next_pc(self.pc), ..self }
    }

    /// Advances past the next instruction as well when `cond` holds.
    pub open spec fn skip_if(self, cond: bool) -> MachineState {
        if cond {
            self.advance().advance()
        } else {
            self.advance()
        }
    }

    /// Register `x` set to `val`, then the program counter advanced.
    pub open spec fn set_reg(self, x: int, val: u8) -> MachineState {
        MachineState { v: self.v.update(x, val), ..self }.advance()
    }

    /// Register `x` set to `val` and then the flag register to `flag`,
    /// so that the flag wins when `x` is the flag register.
    pub open spec fn set_reg_flag(self, x: int, val: u8, flag: u8) -> MachineState {
        MachineState { v: self.v.update(x, val).update(15, flag), ..self }.advance()
    }

    /// Both timers moved one step toward zero.
    pub open spec fn tick(self) -> MachineState {
        MachineState {
            delay: if self.delay > 0 { (self.delay - 1) as u8 } else { 0 },
            sound: if self.sound > 0 { (self.sound - 1) as u8 } else { 0 },
            ..self
        }
    }
}

/// Index of the lowest pressed key at or above `k`, or 16 when there is none.
pub open spec fn first_pressed_from(keys: Seq<bool>, k: int) -> int
    decreases 16 - k,
{
    if k >= 16 {
        16
    } else if keys[k] {
        k
    } else {
        first_pressed_from(keys, k + 1)
    }
}

/// Index of the lowest pressed key, or 16 when no key is pressed.
pub open spec fn first_pressed(keys: Seq<bool>) -> int {
    first_pressed_from(keys, 0)
}

/// Whether column `col` (0 is the leftmost) of the sprite row `b` is set.
pub open spec fn sprite_bit(b: u8, col: int) -> bool {
    b & (0x80u8 >> (col as u8)) != 0
}

/// Whether the sprite of `n` rows at `mem[i..]`, drawn at `(vx, vy)`, has a
/// set bit over framebuffer cell `p`, with wraparound on both axes.
pub open spec fn sprite_covers(mem: Seq<u8>, i: u16, n: u16, vx: u8, vy: u8, p: int) -> bool {
    let col = (p % 64 - vx as int) % 64;
    let row = (p / 64 - vy as int) % 32;
    col < 8 && row < n && sprite_bit(mem[wrap_addr(i + row)], col)
}

/// Column of cell `p` relative to a sprite drawn at column `vx`.
pub open spec fn col_of(p: int, vx: u8) -> int {
    (p % 64 - vx as int) % 64
}

/// Row of cell `p` relative to a sprite drawn at row `vy`.
pub open spec fn row_of(p: int, vy: u8) -> int {
    (p / 64 - vy as int) % 32
}

/// The cell that sprite position `(row, col)` lands on.
pub open spec fn cell_index(vx: u8, vy: u8, row: int, col: int) -> int {
    (vx + col) % 64 + ((vy + row) % 32) * 64
}

/// Sprite position `(row, col)` lands on one cell, whose relative
/// position is `(row, col)` again, and on no other.
pub proof fn lemma_cell(vx: u8, vy: u8, row: int, col: int, p: int)
    requires
        0 <= row < 32,
        0 <= col < 64,
        0 <= p < 2048,
    ensures
        0 <= cell_index(vx, vy, row, col) < 2048,
        col_of(cell_index(vx, vy, row, col), vx) == col,
        row_of(cell_index(vx, vy, row, col), vy) == row,
        (col_of(p, vx) == col && row_of(p, vy) == row) ==> p == cell_index(vx, vy, row, col),
{
    let a = (vx + col) % 64;
    let b = (vy + row) % 32;
    let idx = a + b * 64;
    assert(idx % 64 == a && idx / 64 == b) by (nonlinear_arith)
        requires 0 <= a < 64, 0 <= b < 32, idx == a + b * 64;
    assert(p == p % 64 + (p / 64) * 64) by (nonlinear_arith)
        requires 0 <= p;
}

/// Whether drawing that sprite meets a cell that is already set.
pub open spec fn sprite_collides(
    mem: Seq<u8>,
    gfx: Seq<bool>,
    i: u16,
    n: u16,
    vx: u8,
    vy: u8,
) -> bool {
    exists|p: int| 0 <= p < 2048 && #[trigger] sprite_covers(mem, i, n, vx, vy, p) && gfx[p]
}

/// The framebuffer after the sprite is XORed onto it.
pub open spec fn drawn(mem: Seq<u8>, gfx: Seq<bool>, i: u16, n: u16, vx: u8, vy: u8) -> Seq<bool> {
    Seq::new(2048, |p: int| gfx[p] != sprite_covers(mem, i, n, vx, vy, p))
}

/// Hundreds, tens and ones of `b`.
pub open spec fn bcd(b: u8) -> (u8, u8, u8) {
    ((b / 100) as u8, ((b / 10) % 10) as u8, (b % 10) as u8)
}

/// Memory with registers `V0..=Vx` stored from address `i` on.
pub open spec fn stored(mem: Seq<u8>, v: Seq<u8>, i: u16, x: int) -> Seq<u8> {
    Seq::new(4096, |a: int| if (a - i) % 4096 <= x { v[(a - i) % 4096] } else { mem[a] })
}

/// Registers with `V0..=Vx` loaded from memory at address `i` on.
pub open spec fn loaded(mem: Seq<u8>, v: Seq<u8>, i: u16, x: int) -> Seq<u8> {
    Seq::new(16, |k: int| if k <= x { mem[wrap_addr(i + k)] } else { v[k] })
}

/// Effect of a family-0 instruction.
pub open spec fn exec_system(s: MachineState, op: u16) -> Result<MachineState, Chip8Error> {
    if field_nn(op) == 0xE0 {
        Ok(MachineState { gfx: Seq::new(2048, |p: int| false), draw_flag: true, ..s }.advance())
    } else if field_nn(op) == 0xEE {
        if s.stack.len() == 0 {
            Err(Chip8Error::CallStackUnderflow)
        } else {
            Ok(
                MachineState {
                    pc: next_pc(s.stack.last()),
                    stack: s.stack.drop_last(),
                    ..s
                },
            )
        }
    } else {
        Err(Chip8Error::UnknownOpcode { opcode: op, pc: s.pc })
    }
}

/// Effect of a family-8 (register arithmetic and logic) instruction.
pub open spec fn exec_alu(s: MachineState, op: u16) -> Result<MachineState, Chip8Error> {
    let x = field_x(op) as int;
    let vx = s.v[x];
    let vy = s.v[field_y(op) as int];
    let k = field_n(op);
    if k == 0x0 {
        Ok(s.set_reg(x, vy))
    } else if k == 0x1 {
        Ok(s.set_reg(x, vx | vy))
    } else if k == 0x2 {
        Ok(s.set_reg(x, vx & vy))
    } else if k == 0x3 {
        Ok(s.set_reg(x, vx ^ vy))
    } else if k == 0x4 {
        Ok(s.set_reg_flag(x, ((vx + vy) % 256) as u8, if vx + vy > 255 { 1 } else { 0 }))
    } else if k == 0x5 {
        Ok(s.set_reg_flag(x, ((vx - vy) % 256) as u8, if vy > vx { 0 } else { 1 }))
    } else if k == 0x6 {
        Ok(s.set_reg_flag(x, vx / 2, vx % 2))
    } else if k == 0x7 {
        Ok(s.set_reg_flag(x, ((vy - vx) % 256) as u8, if vx > vy { 0 } else { 1 }))
    } else if k == 0xE {
        Ok(s.set_reg_flag(x, ((vx * 2) % 256) as u8, vx / 128))
    } else {
        Err(Chip8Error::UnknownOpcode { opcode: op, pc: s.pc })
    }
}

/// Effect of a `Dxyn` draw.
pub open spec fn exec_draw(s: MachineState, op: u16) -> MachineState {
    let vx = s.v[field_x(op) as int];
    let vy = s.v[field_y(op) as int];
    let n = field_n(op);
    MachineState {
        gfx: drawn(s.memory, s.gfx, s.i, n, vx, vy),
        v: s.v.update(15, if sprite_collides(s.memory, s.gfx, s.i, n, vx, vy) { 1 } else { 0 }),
        draw_flag: true,
        ..s
    }.advance()
}

/// Effect of a family-E instruction: skip on the state of key `Vx mod 16`.
pub open spec fn exec_key_skip(s: MachineState, op: u16) -> Result<MachineState, Chip8Error> {
    let pressed = s.keys[(s.v[field_x(op) as int] % 16) as int];
    if field_nn(op) == 0x9E {
        Ok(s.skip_if(pressed))
    } else if field_nn(op) == 0xA1 {
        Ok(s.skip_if(!pressed))
    } else {
        Err(Chip8Error::UnknownOpcode { opcode: op, pc: s.pc })
    }
}

/// Effect of a family-F (timers, index, memory) instruction. A key-wait with
/// no key pressed leaves the state as it is.
pub open spec fn exec_misc(s: MachineState, op: u16) -> Result<MachineState, Chip8Error> {
    let x = field_x(op) as int;
    let vx = s.v[x];
    let k = field_nn(op);
    if k == 0x07 {
        Ok(s.set_reg(x, s.delay))
    } else if k == 0x0A {
        if first_pressed(s.keys) < 16 {
            Ok(s.set_reg(x, first_pressed(s.keys) as u8))
        } else {
            Ok(s)
        }
    } else if k == 0x15 {
        Ok(MachineState { delay: vx, ..s }.advance())
    } else if k == 0x18 {
        Ok(MachineState { sound: vx, ..s }.advance())
    } else if k == 0x1E {
        Ok(
            MachineState {
                i: wrap_addr(s.i + vx) as u16,
                v: s.v.update(15, if s.i + vx > 0xFFF { 1 } else { 0 }),
                ..s
            }.advance(),
        )
    } else if k == 0x29 {
        Ok(MachineState { i: (vx * 5) as u16, ..s }.advance())
    } else if k == 0x33 {
        let d = bcd(vx);
        Ok(
            MachineState {
                memory: s.memory.update(s.i as int, d.0).update(wrap_addr(s.i + 1), d.1).update(
                    wrap_addr(s.i + 2),
                    d.2,
                ),
                ..s
            }.advance(),
        )
    } else if k == 0x55 {
        Ok(
            MachineState {
                memory: stored(s.memory, s.v, s.i, x),
                i: wrap_addr(s.i + x + 1) as u16,
                ..s
            }.advance(),
        )
    } else if k == 0x65 {
        Ok(
            MachineState {
                v: loaded(s.memory, s.v, s.i, x),
                i: wrap_addr(s.i + x + 1) as u16,
                ..s
            }.advance(),
        )
    } else {
        Err(Chip8Error::UnknownOpcode { opcode: op, pc: s.pc })
    }
}

/// Effect of executing instruction `op` on `s`, before the timers tick;
/// `rnd` is the random byte that `Cxnn` consumes. Addresses live in the
/// 12-bit space: jump targets, the index register and the memory cells
/// reached from it wrap modulo 4096.
pub open spec fn effect(s: MachineState, op: u16, rnd: u8) -> Result<MachineState, Chip8Error> {
    let f = family(op);
    let x = field_x(op) as int;
    let vx = s.v[x];
    let vy = s.v[field_y(op) as int];
    let nn = field_nn(op) as u8;
    let nnn = field_nnn(op);
    if f == 0x0 {
        exec_system(s, op)
    } else if f == 0x1 {
        Ok(MachineState { pc: nnn, ..s })
    } else if f == 0x2 {
        if s.stack.len() >= 16 {
            Err(Chip8Error::CallStackOverflow)
        } else {
            Ok(MachineState { stack: s.stack.push(s.pc), pc: nnn, ..s })
        }
    } else if f == 0x3 {
        Ok(s.skip_if(vx == nn))
    } else if f == 0x4 {
        Ok(s.skip_if(vx != nn))
    } else if f == 0x5 {
        Ok(s.skip_if(vx == vy))
    } else if f == 0x6 {
        Ok(s.set_reg(x, nn))
    } else if f == 0x7 {
        Ok(s.set_reg(x, ((vx + nn) % 256) as u8))
    } else if f == 0x8 {
        exec_alu(s, op)
    } else if f == 0x9 {
        Ok(s.skip_if(vx != vy))
    } else if f == 0xA {
        Ok(MachineState { i: nnn, ..s }.advance())
    } else if f == 0xB {
        Ok(MachineState { pc: wrap_addr(s.v[0] + nnn) as u16, ..s })
    } else if f == 0xC {
        Ok(s.set_reg(x, rnd & nn))
    } else if f == 0xD {
        Ok(exec_draw(s, op))
    } else if f == 0xE {
        exec_key_skip(s, op)
    } else {
        exec_misc(s, op)
    }
}

/// Whether the call result `r` and the state `after` are what `expected`
/// asks of a step from `before`: on failure nothing changes.
pub open spec fn applied(
    before: MachineState,
    after: MachineState,
    r: Result<(), Chip8Error>,
    expected: Result<MachineState, Chip8Error>,
) -> bool {
    match expected {
        Ok(t) => r == Ok::<(), Chip8Error>(()) && after == t,
        Err(e) => r == Err::<(), Chip8Error>(e) && after == before,
    }
}

/// Whether `op` is a key-wait that finds no key pressed in `s`.
pub open spec fn blocks(s: MachineState, op: u16) -> bool {
    family(op) == 0xF && field_nn(op) == 0x0A && first_pressed(s.keys) >= 16
}

/// One full cycle on `s`: fetch, execute, then tick the timers, unless the
/// instruction is a key-wait with no key pressed.
pub open spec fn cycle_result(s: MachineState, rnd: u8) -> Result<(MachineState, Cycle), Chip8Error> {
    let op = s.fetch();
    if blocks(s, op) {
        Ok((s, Cycle::AwaitingKey))
    } else {
        match effect(s, op, rnd) {
            Ok(t) => Ok(
                (t.tick(), if t.sound == 1 { Cycle::CompletedWithTone } else { Cycle::Completed }),
            ),
            Err(e) => Err(e),
        }
    }
}

/// Whether `r` and `after` are what one cycle from `before` gives when the
/// random byte is `rnd`: on failure nothing changes.
pub open spec fn stepped(
    before: MachineState,
    after: MachineState,
    r: Result<Cycle, Chip8Error>,
    rnd: u8,
) -> bool {
    match cycle_result(before, rnd) {
        Ok((t, c)) => r == Ok::<Cycle, Chip8Error>(c) && after == t,
        Err(e) => r == Err::<Cycle, Chip8Error>(e) && after == before,
    }
}

/// Memory with the program image `rom` at the program start.
pub open spec fn with_program(mem: Seq<u8>, rom: Seq<u8>) -> Seq<u8> {
    Seq::new(4096, |a: int| if 0x200 <= a < 0x200 + rom.len() { rom[a - 0x200] } else { mem[a] })
}

} // verus!
