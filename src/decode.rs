//! Instruction fetch and field extraction.
use vstd::prelude::*;

verus! {

/// The 16-bit big-endian instruction word made of the two bytes `hi` and `lo`.
pub open spec fn word_of(hi: u8, lo: u8) -> u16 {
    ((hi as u16) << 8u16) | (lo as u16)
}

/// Top nibble: the primary opcode family.
pub open spec fn family(op: u16) -> u16 {
    (op & 0xF000u16) >> 12u16
}

/// Second nibble: register operand `x`.
pub open spec fn field_x(op: u16) -> u16 {
    (op & 0x0F00u16) >> 8u16
}

/// Third nibble: register operand `y`.
pub open spec fn field_y(op: u16) -> u16 {
    (op & 0x00F0u16) >> 4u16
}

/// Fourth nibble: 4-bit immediate.
pub open spec fn field_n(op: u16) -> u16 {
    op & 0x000Fu16
}

/// Low byte: 8-bit immediate.
pub open spec fn field_nn(op: u16) -> u16 {
    op & 0x00FFu16
}

/// Low twelve bits: address immediate.
pub open spec fn field_nnn(op: u16) -> u16 {
    op & 0x0FFFu16
}

/// Combines two bytes into an instruction word, high byte first.
pub fn combine(hi: u8, lo: u8) -> (r: u16)
    ensures
        r == word_of(hi, lo),
        r as int == hi as int * 256 + lo as int,
{
    let r = ((hi as u16) << 8u16) | (lo as u16);
    assert(((hi as u16) << 8u16) | (lo as u16) == (hi as u16) * 256 + (lo as u16)) by (bit_vector);
    r
}

/// Splits an instruction word into its primary family and operand fields.
pub fn split(op: u16) -> (r: (u16, usize, usize, u16, u16, u16))
    ensures
        r.0 == family(op),
        r.0 < 16,
        r.1 as u16 == field_x(op),
        r.1 < 16,
        r.2 as u16 == field_y(op),
        r.2 < 16,
        r.3 == field_n(op),
        r.3 < 16,
        r.4 == field_nn(op),
        r.4 < 256,
        r.5 == field_nnn(op),
        r.5 < 4096,
{
    let f = (op & 0xF000u16) >> 12u16;
    let x = (op & 0x0F00u16) >> 8u16;
    let y = (op & 0x00F0u16) >> 4u16;
    let n = op & 0x000Fu16;
    let nn = op & 0x00FFu16;
    let nnn = op & 0x0FFFu16;
    assert((op & 0xF000u16) >> 12u16 < 16) by (bit_vector);
    assert((op & 0x0F00u16) >> 8u16 < 16) by (bit_vector);
    assert((op & 0x00F0u16) >> 4u16 < 16) by (bit_vector);
    assert(op & 0x000Fu16 < 16) by (bit_vector);
    assert(op & 0x00FFu16 < 256) by (bit_vector);
    assert(op & 0x0FFFu16 < 4096) by (bit_vector);
    (f, x as usize, y as usize, n, nn, nnn)
}

/// Every field fits in its width.
pub proof fn lemma_field_bounds(op: u16)
    ensures
        family(op) < 16,
        field_x(op) < 16,
        field_y(op) < 16,
        field_n(op) < 16,
        field_nn(op) < 256,
        field_nnn(op) < 4096,
{
    assert((op & 0xF000u16) >> 12u16 < 16) by (bit_vector);
    assert((op & 0x0F00u16) >> 8u16 < 16) by (bit_vector);
    assert((op & 0x00F0u16) >> 4u16 < 16) by (bit_vector);
    assert(op & 0x000Fu16 < 16) by (bit_vector);
    assert(op & 0x00FFu16 < 256) by (bit_vector);
    assert(op & 0x0FFFu16 < 4096) by (bit_vector);
}

} // verus!
