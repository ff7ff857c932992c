//! The executable machine.
use vstd::prelude::*;
use crate::decode::{combine, family, split};
use crate::entropy::random_byte;
use crate::state::{
    applied, cell_index, col_of, drawn, effect, exec_alu, exec_draw, exec_key_skip, exec_misc, exec_system,
    first_pressed, first_pressed_from, font, lemma_cell, loaded, row_of, sprite_bit, sprite_collides, sprite_covers,
    stepped, stored, with_program, wrap_addr, Chip8Error, Cycle, MachineState, FRAME_CELLS,
    MEMORY_SIZE, PROGRAM_START, REGISTER_COUNT, SCREEN_HEIGHT, SCREEN_WIDTH, STACK_CAPACITY,
};

verus! {

/// A CHIP-8 machine: memory, registers, call stack, timers, framebuffer and keys.
pub struct Chip8 {
    stack: Vec<u16>,
    memory: Vec<u8>,
    v: Vec<u8>,
    pc: u16,
    i: u16,
    delay_timer: u8,
    sound_timer: u8,
    gfx: Vec<bool>,
    key: Vec<bool>,
    draw_flag: bool,
}

impl View for Chip8 {
    type V = MachineState;

    closed spec fn view(&self) -> MachineState {
        MachineState {
            memory: self.memory@,
            v: self.v@,
            stack: self.stack@,
            pc: self.pc,
            i: self.i,
            delay: self.delay_timer,
            sound: self.sound_timer,
            gfx: self.gfx@,
            keys: self.key@,
            draw_flag: self.draw_flag,
        }
    }
}

/// Whether sprite position of cell `p` comes before `(row, col)` in drawing order.
spec fn visited(p: int, vx: u8, vy: u8, row: int, col: int) -> bool {
    row_of(p, vy) < row || (row_of(p, vy) == row && col_of(p, vx) < col)
}

/// The framebuffer with the sprite drawn up to, not including, `(row, col)`.
spec fn drawn_upto(
    mem: Seq<u8>, g0: Seq<bool>, i: u16, n: u16, vx: u8, vy: u8, row: int, col: int,
) -> Seq<bool> {
    Seq::new(2048, |p: int| g0[p] != (sprite_covers(mem, i, n, vx, vy, p) && visited(p, vx, vy, row, col)))
}

/// Whether a set cell was met before `(row, col)`.
spec fn hit_upto(
    mem: Seq<u8>, g0: Seq<bool>, i: u16, n: u16, vx: u8, vy: u8, row: int, col: int,
) -> bool {
    exists|p: int|
        0 <= p < 2048 && #[trigger] sprite_covers(mem, i, n, vx, vy, p) && visited(p, vx, vy, row, col)
            && g0[p]
}

/// One sprite position drawn: the cell it lands on toggles when its bit is
/// set, and a collision is met when that cell was set.
proof fn lemma_draw_step(
    mem: Seq<u8>, g0: Seq<bool>, i: u16, n: u16, vx: u8, vy: u8, row: int, col: int,
)
    requires
        0 <= row < n,
        n < 16,
        0 <= col < 8,
        g0.len() == 2048,
    ensures
        ({
            let idx = cell_index(vx, vy, row, col);
            let bit = sprite_bit(mem[wrap_addr(i + row)], col);
            let before = drawn_upto(mem, g0, i, n, vx, vy, row, col);
            &&& 0 <= idx < 2048
            &&& before[idx] == g0[idx]
            &&& drawn_upto(mem, g0, i, n, vx, vy, row, col + 1) == if bit {
                before.update(idx, !before[idx])
            } else {
                before
            }
            &&& hit_upto(mem, g0, i, n, vx, vy, row, col + 1) == (hit_upto(
                mem, g0, i, n, vx, vy, row, col) || (bit && g0[idx]))
        }),
{
    let idx = cell_index(vx, vy, row, col);
    let bit = sprite_bit(mem[wrap_addr(i + row)], col);
    let before = drawn_upto(mem, g0, i, n, vx, vy, row, col);
    lemma_cell(vx, vy, row, col, 0);
    assert(sprite_covers(mem, i, n, vx, vy, idx) == bit);
    assert forall|p: int| 0 <= p < 2048 implies
        (#[trigger] sprite_covers(mem, i, n, vx, vy, p) && visited(p, vx, vy, row, col + 1))
        == ((sprite_covers(mem, i, n, vx, vy, p) && visited(p, vx, vy, row, col)) || (bit && p == idx)) by {
        lemma_cell(vx, vy, row, col, p);
    }
    let after = drawn_upto(mem, g0, i, n, vx, vy, row, col + 1);
    if bit {
        assert(after =~= before.update(idx, !before[idx]));
    } else {
        assert(after =~= before);
    }
    if bit && g0[idx] {
        assert(visited(idx, vx, vy, row, col + 1));
    }
    if hit_upto(mem, g0, i, n, vx, vy, row, col + 1) {
        let p = choose|p: int|
            0 <= p < 2048 && #[trigger] sprite_covers(mem, i, n, vx, vy, p)
                && visited(p, vx, vy, row, col + 1) && g0[p];
        lemma_cell(vx, vy, row, col, p);
    }
}

/// Finishing a row is starting the next; finishing all rows is the whole sprite.
proof fn lemma_draw_rows(mem: Seq<u8>, g0: Seq<bool>, i: u16, n: u16, vx: u8, vy: u8, row: int)
    requires
        0 <= row <= n,
        n < 16,
        g0.len() == 2048,
    ensures
        row < n ==> drawn_upto(mem, g0, i, n, vx, vy, row, 8) == drawn_upto(mem, g0, i, n, vx, vy, row + 1, 0),
        row < n ==> hit_upto(mem, g0, i, n, vx, vy, row, 8) == hit_upto(mem, g0, i, n, vx, vy, row + 1, 0),
        row == n ==> drawn_upto(mem, g0, i, n, vx, vy, row, 0) == drawn(mem, g0, i, n, vx, vy),
        row == n ==> hit_upto(mem, g0, i, n, vx, vy, row, 0) == sprite_collides(mem, g0, i, n, vx, vy),
{
    assert forall|p: int| 0 <= p < 2048 implies
        (#[trigger] sprite_covers(mem, i, n, vx, vy, p) && visited(p, vx, vy, row, 8))
        == (sprite_covers(mem, i, n, vx, vy, p) && visited(p, vx, vy, row + 1, 0)) by {}
    assert forall|p: int| 0 <= p < 2048 && row == n implies
        (#[trigger] sprite_covers(mem, i, n, vx, vy, p) && visited(p, vx, vy, row, 0))
        == sprite_covers(mem, i, n, vx, vy, p) by {}
    assert(drawn_upto(mem, g0, i, n, vx, vy, row, 8) =~= drawn_upto(mem, g0, i, n, vx, vy, row + 1, 0));
    if row == n {
        assert(drawn_upto(mem, g0, i, n, vx, vy, row, 0) =~= drawn(mem, g0, i, n, vx, vy));
    }
}

/// The built-in font bytes.
fn font_bytes() -> (r: Vec<u8>)
    ensures
        r@ == font(),
{
    let r = vec![
        0xF0u8, 0x90, 0x90, 0x90, 0xF0, 0x20, 0x60, 0x20, 0x20, 0x70,
        0xF0, 0x10, 0xF0, 0x80, 0xF0, 0xF0, 0x10, 0xF0, 0x10, 0xF0,
        0x90, 0x90, 0xF0, 0x10, 0x10, 0xF0, 0x80, 0xF0, 0x10, 0xF0,
        0xF0, 0x80, 0xF0, 0x90, 0xF0, 0xF0, 0x10, 0x20, 0x40, 0x40,
        0xF0, 0x90, 0xF0, 0x90, 0xF0, 0xF0, 0x90, 0xF0, 0x10, 0xF0,
        0xF0, 0x90, 0xF0, 0x90, 0x90, 0xE0, 0x90, 0xE0, 0x90, 0xE0,
        0xF0, 0x80, 0x80, 0x80, 0xF0, 0xE0, 0x90, 0x90, 0x90, 0xE0,
        0xF0, 0x80, 0xF0, 0x80, 0xF0, 0xF0, 0x80, 0xF0, 0x80, 0x80,
    ];
    assert(r@ =~= font());
    r
}

/// `n` copies of `x`.
fn filled<T: Copy>(x: T, n: usize) -> (r: Vec<T>)
    ensures
        r@ == Seq::new(n as nat, |k: int| x),
{
    let mut r: Vec<T> = Vec::new();
    let mut k: usize = 0;
    while k < n
        invariant
            k <= n,
            r@ == Seq::new(k as nat, |j: int| x),
        decreases n - k,
    {
        r.push(x);
        k = k + 1;
        assert(r@ =~= Seq::new(k as nat, |j: int| x));
    }
    r
}

impl Chip8 {
    pub open spec fn wf(&self) -> bool {
        self@.wf()
    }

    /// A machine with all state zeroed, the font loaded at address 0 and the
    /// program counter at the program start.
    pub fn new() -> (r: Chip8)
        ensures
            r@ == MachineState::initial(),
            r.wf(),
    {
        let font_data = font_bytes();
        let mut memory: Vec<u8> = Vec::new();
        let mut a: usize = 0;
        while a < MEMORY_SIZE
            invariant
                a <= 4096,
                font_data@ == font(),
                memory@ == Seq::new(a as nat, |b: int| if b < 80 { font()[b] } else { 0u8 }),
            decreases 4096 - a,
        {
            let byte = if a < 80 { font_data[a] } else { 0u8 };
            memory.push(byte);
            a = a + 1;
            assert(memory@ =~= Seq::new(a as nat, |b: int| if b < 80 { font()[b] } else { 0u8 }));
        }
        let r = Chip8 {
            stack: Vec::new(),
            memory,
            v: filled(0u8, REGISTER_COUNT),
            pc: PROGRAM_START,
            i: 0,
            delay_timer: 0,
            sound_timer: 0,
            gfx: filled(false, FRAME_CELLS),
            key: filled(false, REGISTER_COUNT),
            draw_flag: false,
        };
        assert(r@ =~= MachineState::initial());
        r
    }

    /// Moves the program counter to the next instruction.
    fn advance(&mut self)
        requires
            old(self).wf(),
        ensures
            final(self)@ == old(self)@.advance(),
            final(self).wf(),
    {
        self.pc = (self.pc + 2) % 4096;
    }

    /// Moves past the next instruction too when `cond` holds.
    fn skip_if(&mut self, cond: bool)
        requires
            old(self).wf(),
        ensures
            final(self)@ == old(self)@.skip_if(cond),
            final(self).wf(),
    {
        self.advance();
        if cond {
            self.advance();
        }
    }

    /// Sets register `x` to `val` and advances.
    fn set_reg(&mut self, x: usize, val: u8)
        requires
            old(self).wf(),
            x < 16,
        ensures
            final(self)@ == old(self)@.set_reg(x as int, val),
            final(self).wf(),
    {
        self.v.set(x, val);
        self.advance();
    }

    /// Sets register `x` to `val`, then the flag register to `flag`, and advances.
    fn set_reg_flag(&mut self, x: usize, val: u8, flag: u8)
        requires
            old(self).wf(),
            x < 16,
        ensures
            final(self)@ == old(self)@.set_reg_flag(x as int, val, flag),
            final(self).wf(),
    {
        self.v.set(x, val);
        self.v.set(15, flag);
        self.advance();
    }

    /// Runs a family-0 instruction: clear screen or return.
    fn run_system(&mut self, op: u16) -> (r: Result<(), Chip8Error>)
        requires
            old(self).wf(),
            family(op) == 0,
        ensures
            applied(old(self)@, final(self)@, r, exec_system(old(self)@, op)),
            final(self).wf(),
    {
        let (_, _, _, _, nn, _) = split(op);
        if nn == 0xE0 {
            let mut p: usize = 0;
            while p < FRAME_CELLS
                invariant
                    self.wf(),
                    p <= 2048,
                    self@ == (MachineState {
                        gfx: Seq::new(2048, |q: int| if q < p { false } else { old(self)@.gfx[q] }),
                        ..old(self)@
                    }),
                decreases 2048 - p,
            {
                self.gfx.set(p, false);
                p = p + 1;
                assert(self.gfx@ =~= Seq::new(2048, |q: int| if q < p { false } else { old(self)@.gfx[q] }));
            }
            self.draw_flag = true;
            self.advance();
            assert(self@ =~= exec_system(old(self)@, op).unwrap());
            Ok(())
        } else if nn == 0xEE {
            match self.stack.pop() {
                Some(ret) => {
                    self.pc = (ret + 2) % 4096;
                    assert(self@ =~= exec_system(old(self)@, op).unwrap());
                    Ok(())
                },
                None => Err(Chip8Error::CallStackUnderflow),
            }
        } else {
            Err(Chip8Error::UnknownOpcode { opcode: op, pc: self.pc })
        }
    }

    /// Runs a family-8 instruction: register arithmetic and logic.
    fn run_alu(&mut self, op: u16) -> (r: Result<(), Chip8Error>)
        requires
            old(self).wf(),
            family(op) == 8,
        ensures
            applied(old(self)@, final(self)@, r, exec_alu(old(self)@, op)),
            final(self).wf(),
    {
        let (_, x, y, k, _, _) = split(op);
        let vx = self.v[x];
        let vy = self.v[y];
        if k == 0x0 {
            self.set_reg(x, vy);
        } else if k == 0x1 {
            self.set_reg(x, vx | vy);
        } else if k == 0x2 {
            self.set_reg(x, vx & vy);
        } else if k == 0x3 {
            self.set_reg(x, vx ^ vy);
        } else if k == 0x4 {
            let sum = vx as u16 + vy as u16;
            self.set_reg_flag(x, (sum % 256) as u8, if sum > 255 { 1 } else { 0 });
        } else if k == 0x5 {
            let flag: u8 = if vy > vx { 0 } else { 1 };
            self.set_reg_flag(x, ((vx as u16 + 256 - vy as u16) % 256) as u8, flag);
        } else if k == 0x6 {
            self.set_reg_flag(x, vx >> 1u8, vx & 1);
            assert(vx >> 1u8 == vx / 2 && vx & 1 == vx % 2) by (bit_vector);
        } else if k == 0x7 {
            let flag: u8 = if vx > vy { 0 } else { 1 };
            self.set_reg_flag(x, ((vy as u16 + 256 - vx as u16) % 256) as u8, flag);
        } else if k == 0xE {
            self.set_reg_flag(x, ((vx as u16 * 2) % 256) as u8, vx >> 7u8);
            assert(vx >> 7u8 == vx / 128) by (bit_vector);
        } else {
            return Err(Chip8Error::UnknownOpcode { opcode: op, pc: self.pc });
        }
        Ok(())
    }

    /// Runs a family-E instruction: skip on the state of key `Vx`.
    fn run_key_skip(&mut self, op: u16) -> (r: Result<(), Chip8Error>)
        requires
            old(self).wf(),
            family(op) == 0xE,
        ensures
            applied(old(self)@, final(self)@, r, exec_key_skip(old(self)@, op)),
            final(self).wf(),
    {
        let (_, x, _, _, nn, _) = split(op);
        let pressed = self.key[(self.v[x] % 16) as usize];
        if nn == 0x9E {
            self.skip_if(pressed);
            Ok(())
        } else if nn == 0xA1 {
            self.skip_if(!pressed);
            Ok(())
        } else {
            Err(Chip8Error::UnknownOpcode { opcode: op, pc: self.pc })
        }
    }

    /// The lowest pressed key, or 16 when none is pressed.
    fn lowest_pressed_key(&self) -> (r: u8)
        requires
            self.wf(),
        ensures
            r as int == first_pressed(self@.keys),
    {
        let mut k: usize = 0;
        while k < REGISTER_COUNT
            invariant
                self.wf(),
                k <= 16,
                first_pressed_from(self@.keys, k as int) == first_pressed(self@.keys),
            decreases 16 - k,
        {
            if self.key[k] {
                return k as u8;
            }
            k = k + 1;
        }
        16
    }

    /// Stores `V0..=Vx` into memory from the index register on.
    fn store_registers(&mut self, x: usize)
        requires
            old(self).wf(),
            x < 16,
        ensures
            final(self)@ == (MachineState {
                memory: stored(old(self)@.memory, old(self)@.v, old(self)@.i, x as int),
                ..old(self)@
            }),
            final(self).wf(),
    {
        let base = self.i;
        let ghost s0 = self@;
        let mut k: usize = 0;
        while k <= x
            invariant
                self.wf(),
                k <= x + 1,
                x < 16,
                base == s0.i,
                self@ == (MachineState {
                    memory: Seq::new(
                        4096,
                        |a: int|
                            if (a - base) % 4096 < k {
                                s0.v[(a - base) % 4096]
                            } else {
                                s0.memory[a]
                            },
                    ),
                    ..s0
                }),
            decreases x + 1 - k,
        {
            let addr = ((base as usize) + k) % MEMORY_SIZE;
            let val = self.v[k];
            self.memory.set(addr, val);
            k = k + 1;
            assert(self.memory@ =~= Seq::new(
                4096,
                |a: int|
                    if (a - base) % 4096 < k {
                        s0.v[(a - base) % 4096]
                    } else {
                        s0.memory[a]
                    },
            ));
        }
        assert(self.memory@ =~= stored(s0.memory, s0.v, s0.i, x as int));
        assert(self@ =~= (MachineState {
                memory: stored(old(self)@.memory, old(self)@.v, old(self)@.i, x as int),
                ..old(self)@
            }));
    }

    /// Loads `V0..=Vx` from memory at the index register on.
    fn load_registers(&mut self, x: usize)
        requires
            old(self).wf(),
            x < 16,
        ensures
            final(self)@ == (MachineState {
                v: loaded(old(self)@.memory, old(self)@.v, old(self)@.i, x as int),
                ..old(self)@
            }),
            final(self).wf(),
    {
        let base = self.i;
        let ghost s0 = self@;
        let mut k: usize = 0;
        while k <= x
            invariant
                self.wf(),
                k <= x + 1,
                x < 16,
                base == s0.i,
                self@ == (MachineState {
                    v: Seq::new(16, |j: int| if j < k { s0.memory[wrap_addr(base + j)] } else { s0.v[j] }),
                    ..s0
                }),
            decreases x + 1 - k,
        {
            let addr = ((base as usize) + k) % MEMORY_SIZE;
            let val = self.memory[addr];
            self.v.set(k, val);
            k = k + 1;
            assert(self.v@ =~= Seq::new(16, |j: int| if j < k { s0.memory[wrap_addr(base + j)] } else { s0.v[j] }));
        }
        assert(self.v@ =~= loaded(s0.memory, s0.v, s0.i, x as int));
        assert(self@ =~= (MachineState {
                v: loaded(old(self)@.memory, old(self)@.v, old(self)@.i, x as int),
                ..old(self)@
            }));
    }

    /// Runs a family-F instruction: timers, key-wait, index and memory transfers.
    fn run_misc(&mut self, op: u16) -> (r: Result<(), Chip8Error>)
        requires
            old(self).wf(),
            family(op) == 0xF,
        ensures
            applied(old(self)@, final(self)@, r, exec_misc(old(self)@, op)),
            final(self).wf(),
    {
        let (_, x, _, _, nn, _) = split(op);
        let vx = self.v[x];
        let ghost s0 = self@;
        if nn == 0x07 {
            let d = self.delay_timer;
            self.set_reg(x, d);
        } else if nn == 0x0A {
            let k = self.lowest_pressed_key();
            if k < 16 {
                self.set_reg(x, k);
            }
        } else if nn == 0x15 {
            self.delay_timer = vx;
            self.advance();
        } else if nn == 0x18 {
            self.sound_timer = vx;
            self.advance();
        } else if nn == 0x1E {
            let sum = self.i + vx as u16;
            self.v.set(15, if sum > 0xFFF { 1 } else { 0 });
            self.i = sum % 4096;
            self.advance();
            assert(self@ =~= exec_misc(s0, op).unwrap());
        } else if nn == 0x29 {
            self.i = vx as u16 * 5;
            self.advance();
        } else if nn == 0x33 {
            let i = self.i as usize;
            self.memory.set(i, vx / 100);
            self.memory.set((i + 1) % MEMORY_SIZE, (vx / 10) % 10);
            self.memory.set((i + 2) % MEMORY_SIZE, vx % 10);
            self.advance();
            assert(self@ =~= exec_misc(s0, op).unwrap());
        } else if nn == 0x55 {
            self.store_registers(x);
            self.i = ((self.i as usize + x + 1) % MEMORY_SIZE) as u16;
            self.advance();
            assert(self@ =~= exec_misc(s0, op).unwrap());
        } else if nn == 0x65 {
            self.load_registers(x);
            self.i = ((self.i as usize + x + 1) % MEMORY_SIZE) as u16;
            self.advance();
            assert(self@ =~= exec_misc(s0, op).unwrap());
        } else {
            return Err(Chip8Error::UnknownOpcode { opcode: op, pc: self.pc });
        }
        Ok(())
    }

    /// Runs `Dxyn`: XORs an `n`-row sprite from memory at the index register
    /// onto the framebuffer at `(Vx, Vy)`, with the flag register telling
    /// whether a set cell was met.
    fn run_draw(&mut self, op: u16)
        requires
            old(self).wf(),
            family(op) == 0xD,
        ensures
            final(self)@ == exec_draw(old(self)@, op),
            final(self).wf(),
    {
        let (_, x, y, n, _, _) = split(op);
        let vx = self.v[x];
        let vy = self.v[y];
        let base = self.i;
        let ghost s0 = self@;
        let ghost mem = s0.memory;
        let ghost g0 = s0.gfx;
        let mut collided = false;
        let mut row: u16 = 0;
        while row < n
            invariant
                self.wf(),
                n < 16,
                row <= n,
                base == s0.i,
                s0.wf(),
                mem == s0.memory,
                g0 == s0.gfx,
                self@ == (MachineState { gfx: drawn_upto(mem, g0, base, n, vx, vy, row as int, 0), ..s0 }),
                collided == hit_upto(mem, g0, base, n, vx, vy, row as int, 0),
            decreases n - row,
        {
            assert(self.memory@ == mem);
            let byte = self.memory[(base as usize + row as usize) % MEMORY_SIZE];
            let mut col: u8 = 0;
            while col < 8
                invariant
                    self.wf(),
                    n < 16,
                    row < n,
                    col <= 8,
                    base == s0.i,
                    s0.wf(),
                    mem == s0.memory,
                    g0 == s0.gfx,
                    byte == mem[wrap_addr(base + row)],
                    self@ == (MachineState {
                        gfx: drawn_upto(mem, g0, base, n, vx, vy, row as int, col as int),
                        ..s0
                    }),
                    collided == hit_upto(mem, g0, base, n, vx, vy, row as int, col as int),
                decreases 8 - col,
            {
                let idx = ((vx as usize + col as usize) % SCREEN_WIDTH) + ((vy as usize
                    + row as usize) % SCREEN_HEIGHT) * SCREEN_WIDTH;
                proof {
                    lemma_draw_step(mem, g0, base, n, vx, vy, row as int, col as int);
                    assert(idx == cell_index(vx, vy, row as int, col as int));
                }
                let bit = byte & (0x80u8 >> col) != 0;
                if bit {
                    let cur = self.gfx[idx];
                    if cur {
                        collided = true;
                    }
                    self.gfx.set(idx, !cur);
                }
                col = col + 1;
                assert(self@ =~= (MachineState {
                    gfx: drawn_upto(mem, g0, base, n, vx, vy, row as int, col as int),
                    ..s0
                }));
            }
            proof {
                lemma_draw_rows(mem, g0, base, n, vx, vy, row as int);
            }
            row = row + 1;
        }
        proof {
            lemma_draw_rows(mem, g0, base, n, vx, vy, row as int);
        }
        self.v.set(15, if collided { 1 } else { 0 });
        self.draw_flag = true;
        self.advance();
        assert(self@ =~= exec_draw(s0, op));
    }

    /// Executes instruction `op`, with `rnd` as the random byte of `Cxnn`,
    /// without ticking the timers. On failure nothing changes.
    pub fn execute(&mut self, op: u16, rnd: u8) -> (r: Result<(), Chip8Error>)
        requires
            old(self).wf(),
        ensures
            applied(old(self)@, final(self)@, r, effect(old(self)@, op, rnd)),
            final(self).wf(),
    {
        let (f, x, y, _, nn, nnn) = split(op);
        let nn = nn as u8;
        let vx = self.v[x];
        let vy = self.v[y];
        if f == 0x0 {
            return self.run_system(op);
        } else if f == 0x1 {
            self.pc = nnn;
        } else if f == 0x2 {
            if self.stack.len() >= STACK_CAPACITY {
                return Err(Chip8Error::CallStackOverflow);
            }
            let pc = self.pc;
            self.stack.push(pc);
            self.pc = nnn;
        } else if f == 0x3 {
            self.skip_if(vx == nn);
        } else if f == 0x4 {
            self.skip_if(vx != nn);
        } else if f == 0x5 {
            self.skip_if(vx == vy);
        } else if f == 0x6 {
            self.set_reg(x, nn);
        } else if f == 0x7 {
            self.set_reg(x, ((vx as u16 + nn as u16) % 256) as u8);
        } else if f == 0x8 {
            return self.run_alu(op);
        } else if f == 0x9 {
            self.skip_if(vx != vy);
        } else if f == 0xA {
            self.i = nnn;
            self.advance();
        } else if f == 0xB {
            self.pc = (self.v[0] as u16 + nnn) % 4096;
        } else if f == 0xC {
            self.set_reg(x, rnd & nn);
        } else if f == 0xD {
            self.run_draw(op);
        } else if f == 0xE {
            return self.run_key_skip(op);
        } else {
            return self.run_misc(op);
        }
        assert(self@ =~= effect(old(self)@, op, rnd).unwrap());
        Ok(())
    }

    /// One cycle with `rnd` as the random byte: fetches the instruction at
    /// the program counter and executes it, then ticks both timers; a
    /// key-wait with no key pressed changes nothing. On failure nothing changes.
    pub fn step_with_random(&mut self, rnd: u8) -> (r: Result<Cycle, Chip8Error>)
        requires
            old(self).wf(),
        ensures
            stepped(old(self)@, final(self)@, r, rnd),
            final(self).wf(),
    {
        let pc = self.pc as usize;
        let hi = self.memory[pc];
        let lo = self.memory[(pc + 1) % MEMORY_SIZE];
        let op = combine(hi, lo);
        let (f, _, _, _, nn, _) = split(op);
        if f == 0xF && nn == 0x0A && self.lowest_pressed_key() >= 16 {
            return Ok(Cycle::AwaitingKey);
        }
        match self.execute(op, rnd) {
            Ok(()) => {},
            Err(e) => return Err(e),
        }
        let tone = self.sound_timer == 1;
        if self.delay_timer > 0 {
            self.delay_timer = self.delay_timer - 1;
        }
        if self.sound_timer > 0 {
            self.sound_timer = self.sound_timer - 1;
        }
        assert(self@ =~= effect(old(self)@, op, rnd).unwrap().tick());
        if tone {
            Ok(Cycle::CompletedWithTone)
        } else {
            Ok(Cycle::Completed)
        }
    }

    /// One cycle, drawing the random byte that `Cxnn` consumes from the
    /// thread-local generator. Whatever byte is drawn, the outcome is the
    /// cycle that `step_with_random` makes with it.
    pub fn step(&mut self) -> (r: Result<Cycle, Chip8Error>)
        requires
            old(self).wf(),
        ensures
            exists|rnd: u8| stepped(old(self)@, final(self)@, r, rnd),
            final(self).wf(),
    {
        let rnd = random_byte();
        let r = self.step_with_random(rnd);
        assert(stepped(old(self)@, self@, r, rnd));
        r
    }

    /// Copies the program image `rom` into memory at the program start; an
    /// image larger than the memory above the program start is refused and
    /// nothing changes.
    pub fn load_program(&mut self, rom: &[u8]) -> (r: Result<(), Chip8Error>)
        requires
            old(self).wf(),
        ensures
            rom@.len() > 4096 - 0x200 ==> r == Err::<(), Chip8Error>(Chip8Error::LoaderOverflow)
                && final(self)@ == old(self)@,
            rom@.len() <= 4096 - 0x200 ==> r == Ok::<(), Chip8Error>(()) && final(self)@ == (MachineState {
                memory: with_program(old(self)@.memory, rom@),
                ..old(self)@
            }),
            final(self).wf(),
    {
        if rom.len() > MEMORY_SIZE - PROGRAM_START as usize {
            return Err(Chip8Error::LoaderOverflow);
        }
        let ghost s0 = self@;
        let mut k: usize = 0;
        while k < rom.len()
            invariant
                self.wf(),
                s0.wf(),
                k <= rom@.len() <= 4096 - 0x200,
                self@ == (MachineState {
                    memory: with_program(s0.memory, rom@.subrange(0, k as int)),
                    ..s0
                }),
            decreases rom@.len() - k,
        {
            self.memory.set(PROGRAM_START as usize + k, rom[k]);
            k = k + 1;
            assert(self.memory@ =~= with_program(s0.memory, rom@.subrange(0, k as int)));
        }
        assert(rom@.subrange(0, k as int) =~= rom@);
        Ok(())
    }

    /// Register `Vk`.
    pub fn register(&self, k: usize) -> (r: u8)
        requires
            self.wf(),
            k < 16,
        ensures
            r == self@.v[k as int],
    {
        self.v[k]
    }

    /// The program counter.
    pub fn pc(&self) -> (r: u16)
        ensures
            r == self@.pc,
    {
        self.pc
    }

    /// The index register `I`.
    pub fn index(&self) -> (r: u16)
        ensures
            r == self@.i,
    {
        self.i
    }

    /// The delay timer.
    pub fn delay_timer(&self) -> (r: u8)
        ensures
            r == self@.delay,
    {
        self.delay_timer
    }

    /// The sound timer.
    pub fn sound_timer(&self) -> (r: u8)
        ensures
            r == self@.sound,
    {
        self.sound_timer
    }

    /// The byte at address `addr`.
    pub fn memory_byte(&self, addr: usize) -> (r: u8)
        requires
            self.wf(),
            addr < 4096,
        ensures
            r == self@.memory[addr as int],
    {
        self.memory[addr]
    }

    /// Number of return addresses on the call stack.
    pub fn stack_depth(&self) -> (r: usize)
        ensures
            r == self@.stack.len(),
    {
        self.stack.len()
    }

    /// The framebuffer, row by row: cell `(x, y)` at `x + y * 64`.
    pub fn framebuffer(&self) -> (r: &[bool])
        ensures
            r@ == self@.gfx,
    {
        self.gfx.as_slice()
    }

    /// Whether cell `(x, y)` is set, with both coordinates wrapping.
    pub fn pixel(&self, x: usize, y: usize) -> (r: bool)
        requires
            self.wf(),
        ensures
            r == self@.gfx[(x % 64) + (y % 32) * 64],
    {
        self.gfx[(x % SCREEN_WIDTH) + (y % SCREEN_HEIGHT) * SCREEN_WIDTH]
    }

    /// Whether the framebuffer changed since the flag was last cleared.
    pub fn draw_flag(&self) -> (r: bool)
        ensures
            r == self@.draw_flag,
    {
        self.draw_flag
    }

    /// Clears the redraw flag once the framebuffer has been presented.
    pub fn clear_draw_flag(&mut self)
        requires
            old(self).wf(),
        ensures
            final(self)@ == (MachineState { draw_flag: false, ..old(self)@ }),
            final(self).wf(),
    {
        self.draw_flag = false;
    }

    /// Records whether key `k` is held down.
    pub fn set_key(&mut self, k: usize, pressed: bool)
        requires
            old(self).wf(),
            k < 16,
        ensures
            final(self)@ == (MachineState { keys: old(self)@.keys.update(k as int, pressed), ..old(self)@ }),
            final(self).wf(),
    {
        self.key.set(k, pressed);
    }
}

} // verus!
