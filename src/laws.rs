//! Properties of the instruction semantics that relate several operations
//! or hold of every state.
use vstd::prelude::*;
use crate::decode::{family, field_n, field_nn, field_x, field_y, lemma_field_bounds};
use crate::state::{
    bcd, cycle_result, effect, first_pressed_from, lemma_cell, next_pc, sprite_bit,
    sprite_collides, sprite_covers, wrap_addr, Chip8Error, Cycle, MachineState,
};

verus! {

/// `first_pressed_from(keys, k)` is the lowest pressed key at or above `k`,
/// or 16 when there is none.
pub proof fn lemma_first_pressed_from(keys: Seq<bool>, k: int)
    requires
        keys.len() == 16,
        0 <= k <= 16,
    ensures
        k <= first_pressed_from(keys, k) <= 16,
        first_pressed_from(keys, k) < 16 ==> keys[first_pressed_from(keys, k)],
        forall|j: int| k <= j < first_pressed_from(keys, k) ==> !keys[j],
    decreases 16 - k,
{
    if k < 16 && !keys[k] {
        lemma_first_pressed_from(keys, k + 1);
    }
}

/// `8xy4`, `8xy5` and `8xy7` leave the result modulo 256 in `Vx` and the
/// carry or no-borrow flag, computed from the operands before the
/// operation, in `VF`, also when `x` names `VF` itself.
pub proof fn law_arithmetic_wraps(s: MachineState, op: u16, rnd: u8)
    requires
        s.wf(),
        family(op) == 8,
        field_n(op) == 4 || field_n(op) == 5 || field_n(op) == 7,
    ensures
        ({
            let x = field_x(op) as int;
            let vx = s.v[x];
            let vy = s.v[field_y(op) as int];
            let t = effect(s, op, rnd).unwrap();
            &&& effect(s, op, rnd) is Ok
            &&& field_n(op) == 4 ==> t.v[15] == (if vx + vy > 255 { 1u8 } else { 0u8 })
                && (x != 15 ==> t.v[x] as int == (vx + vy) % 256)
            &&& field_n(op) == 5 ==> t.v[15] == (if vy > vx { 0u8 } else { 1u8 })
                && (x != 15 ==> t.v[x] as int == (vx - vy) % 256)
            &&& field_n(op) == 7 ==> t.v[15] == (if vx > vy { 0u8 } else { 1u8 })
                && (x != 15 ==> t.v[x] as int == (vy - vx) % 256)
        }),
{
    lemma_field_bounds(op);
}

/// A sprite cell at row `row` and column `col` lands on cell
/// `((Vx + col) mod 64, (Vy + row) mod 32)`, which toggles when its bit is
/// set: drawing past an edge wraps to the opposite one.
pub proof fn law_draw_wraps(s: MachineState, op: u16, rnd: u8, row: int, col: int)
    requires
        s.wf(),
        family(op) == 0xD,
        0 <= row < field_n(op),
        0 <= col < 8,
    ensures
        ({
            let vx = s.v[field_x(op) as int];
            let vy = s.v[field_y(op) as int];
            let p = (vx + col) % 64 + ((vy + row) % 32) * 64;
            let t = effect(s, op, rnd).unwrap();
            &&& effect(s, op, rnd) is Ok
            &&& 0 <= p < 2048
            &&& t.gfx[p] == (s.gfx[p] != sprite_bit(s.memory[wrap_addr(s.i + row)], col))
        }),
{
    lemma_field_bounds(op);
    let vx = s.v[field_x(op) as int];
    let vy = s.v[field_y(op) as int];
    lemma_cell(vx, vy, row, col, 0);
}

/// A cycle that runs `00E0` leaves every framebuffer cell clear and raises
/// the redraw flag.
pub proof fn law_clear_screen(s: MachineState, rnd: u8)
    requires
        s.wf(),
        s.fetch() == 0x00E0,
    ensures
        ({
            let t = cycle_result(s, rnd).unwrap().0;
            &&& cycle_result(s, rnd) is Ok
            &&& t.draw_flag
            &&& t.pc == next_pc(s.pc)
            &&& t.gfx.len() == 2048
            &&& forall|p: int| 0 <= p < 2048 ==> !#[trigger] t.gfx[p]
        }),
{
    let op = s.fetch();
    assert(family(op) == 0 && field_nn(op) == 0xE0) by (bit_vector)
        requires op == 0x00E0u16;
    let t = cycle_result(s, rnd).unwrap().0;
    assert(forall|p: int| 0 <= p < 2048 ==> !#[trigger] t.gfx[p]);
}

/// Drawing the same sprite twice at the same place restores the framebuffer,
/// and the second draw reports a collision exactly when the first set some
/// cell. The coordinates must not come from `VF`, which the first draw writes.
pub proof fn law_draw_twice(s: MachineState, op: u16, rnd: u8)
    requires
        s.wf(),
        family(op) == 0xD,
        field_x(op) != 15,
        field_y(op) != 15,
    ensures
        ({
            let t = effect(s, op, rnd).unwrap();
            let u = effect(t, op, rnd).unwrap();
            let vx = s.v[field_x(op) as int];
            let vy = s.v[field_y(op) as int];
            &&& effect(s, op, rnd) is Ok
            &&& effect(t, op, rnd) is Ok
            &&& u.gfx == s.gfx
            &&& (u.v[15] == 1) == (exists|p: int|
                0 <= p < 2048 && #[trigger] sprite_covers(s.memory, s.i, field_n(op), vx, vy, p)
                    && !s.gfx[p])
        }),
{
    lemma_field_bounds(op);
    let t = effect(s, op, rnd).unwrap();
    let u = effect(t, op, rnd).unwrap();
    let vx = s.v[field_x(op) as int];
    let vy = s.v[field_y(op) as int];
    let n = field_n(op);
    assert(t.v[field_x(op) as int] == vx && t.v[field_y(op) as int] == vy);
    assert(u.gfx =~= s.gfx);
    if sprite_collides(t.memory, t.gfx, t.i, n, vx, vy) {
        let p = choose|p: int|
            0 <= p < 2048 && #[trigger] sprite_covers(t.memory, t.i, n, vx, vy, p) && t.gfx[p];
        assert(sprite_covers(s.memory, s.i, n, vx, vy, p) && !s.gfx[p]);
    }
    if exists|p: int|
        0 <= p < 2048 && #[trigger] sprite_covers(s.memory, s.i, n, vx, vy, p) && !s.gfx[p] {
        let p = choose|p: int|
            0 <= p < 2048 && #[trigger] sprite_covers(s.memory, s.i, n, vx, vy, p) && !s.gfx[p];
        assert(sprite_covers(t.memory, t.i, n, vx, vy, p) && t.gfx[p]);
    }
}

/// `Fx55` followed by `Fx65` with the same `x`, from the same index
/// register value, gives back every register.
pub proof fn law_store_load_round_trip(s: MachineState, x: u16, rnd: u8)
    requires
        s.wf(),
        x < 16,
    ensures
        ({
            let store = (0xF055 | (x << 8u16)) as u16;
            let load = (0xF065 | (x << 8u16)) as u16;
            let t = effect(s, store, rnd).unwrap();
            let u = effect(MachineState { i: s.i, ..t }, load, rnd).unwrap();
            &&& effect(s, store, rnd) is Ok
            &&& effect(MachineState { i: s.i, ..t }, load, rnd) is Ok
            &&& u.v == s.v
        }),
{
    let store = (0xF055 | (x << 8u16)) as u16;
    let load = (0xF065 | (x << 8u16)) as u16;
    assert(family(store) == 0xF && field_nn(store) == 0x55 && field_x(store) == x) by (bit_vector)
        requires x < 16, store == (0xF055 | (x << 8u16)) as u16;
    assert(family(load) == 0xF && field_nn(load) == 0x65 && field_x(load) == x) by (bit_vector)
        requires x < 16, load == (0xF065 | (x << 8u16)) as u16;
    let t = effect(s, store, rnd).unwrap();
    let u = effect(MachineState { i: s.i, ..t }, load, rnd).unwrap();
    assert forall|k: int| 0 <= k <= x implies (#[trigger] wrap_addr(s.i + k) - s.i) % 4096 == k by {}
    assert(u.v =~= s.v);
}

/// `Fx33` writes the hundreds, tens and ones of `Vx` at `I`, `I + 1` and
/// `I + 2`, three decimal digits that make up `Vx` again.
pub proof fn law_bcd_digits(s: MachineState, op: u16, rnd: u8)
    requires
        s.wf(),
        family(op) == 0xF,
        field_nn(op) == 0x33,
    ensures
        ({
            let b = s.v[field_x(op) as int];
            let t = effect(s, op, rnd).unwrap();
            let h = t.memory[s.i as int];
            let d = t.memory[wrap_addr(s.i + 1)];
            let o = t.memory[wrap_addr(s.i + 2)];
            &&& effect(s, op, rnd) is Ok
            &&& h < 10 && d < 10 && o < 10
            &&& 100 * h + 10 * d + o == b
            &&& (h, d, o) == bcd(b)
        }),
{
    lemma_field_bounds(op);
    let b = s.v[field_x(op) as int];
    assert(100 * (b / 100) + 10 * ((b / 10) % 10) + b % 10 == b && b / 100 < 10) by (nonlinear_arith)
        requires 0 <= b < 256;
}

/// With no key pressed, a cycle at a key-wait changes nothing, whatever the
/// random byte: repeating it keeps the program counter, the timers and the
/// registers as they are.
pub proof fn law_key_wait_blocks(s: MachineState, rnd: u8)
    requires
        s.wf(),
        family(s.fetch()) == 0xF,
        field_nn(s.fetch()) == 0x0A,
        forall|k: int| 0 <= k < 16 ==> !#[trigger] s.keys[k],
    ensures
        cycle_result(s, rnd) == Ok::<(MachineState, Cycle), Chip8Error>((s, Cycle::AwaitingKey)),
{
    lemma_first_pressed_from(s.keys, 0);
}

/// With a key pressed, one cycle at a key-wait puts the lowest pressed key
/// in `Vx` and moves to the next instruction.
pub proof fn law_key_wait_resolves(s: MachineState, rnd: u8, k: int)
    requires
        s.wf(),
        family(s.fetch()) == 0xF,
        field_nn(s.fetch()) == 0x0A,
        0 <= k < 16,
        s.keys[k],
    ensures
        ({
            let r = cycle_result(s, rnd);
            let t = r.unwrap().0;
            let low = t.v[field_x(s.fetch()) as int] as int;
            &&& r is Ok
            &&& r.unwrap().1 != Cycle::AwaitingKey
            &&& t.pc == next_pc(s.pc)
            &&& 0 <= low <= k
            &&& s.keys[low]
            &&& forall|j: int| 0 <= j < low ==> !#[trigger] s.keys[j]
        }),
{
    lemma_field_bounds(s.fetch());
    lemma_first_pressed_from(s.keys, 0);
}

} // verus!
