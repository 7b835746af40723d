//! The instruction decoder: a raw 16-bit instruction word, decomposed on
//! demand into its addressing sub-fields. Field extraction is unconditional;
//! legality is judged only by the processor's dispatcher.

use vstd::prelude::*;

verus! {

/// The 12-bit address field: the lowest 12 bits of the word.
pub open spec fn op_addr(op: u16) -> u16 {
    op & 0x0FFF
}

/// The 4-bit immediate: the lowest 4 bits of the word.
pub open spec fn op_nibble(op: u16) -> u8 {
    (op & 0x000F) as u8
}

/// Register index `x`: the low 4 bits of the high byte.
pub open spec fn op_x(op: u16) -> u8 {
    ((op & 0x0F00) >> 8) as u8
}

/// Register index `y`: the high 4 bits of the low byte.
pub open spec fn op_y(op: u16) -> u8 {
    ((op & 0x00F0) >> 4) as u8
}

/// The 8-bit immediate: the low byte of the word.
pub open spec fn op_byte(op: u16) -> u8 {
    (op & 0x00FF) as u8
}

/// A raw 16-bit instruction word. Never persisted by the processor:
/// it is recomputed on every fetch.
#[derive(Clone, Copy, Debug)]
pub struct Opcode {
    bits: u16,
}

impl View for Opcode {
    type V = u16;

    closed spec fn view(&self) -> u16 {
        self.bits
    }
}

impl Opcode {
    pub fn new(bits: u16) -> (r: Opcode)
        ensures
            r@ == bits,
    {
        Opcode { bits }
    }

    /// The full 16-bit instruction word.
    pub fn bits(&self) -> (r: u16)
        ensures
            r == self@,
    {
        self.bits
    }

    /// A 12-bit value, the lowest 12 bits of the instruction.
    pub fn addr(&self) -> (r: u16)
        ensures
            r == op_addr(self@),
            r <= 0x0FFF,
    {
        let b = self.bits;
        proof {
            assert(b & 0x0FFF <= 0x0FFF) by (bit_vector);
        }
        b & 0x0FFF
    }

    /// A 4-bit value, the lowest 4 bits of the instruction.
    pub fn nibble(&self) -> (r: u8)
        ensures
            r == op_nibble(self@),
            r < 16,
    {
        let b = self.bits;
        proof {
            assert(b & 0x000F < 16) by (bit_vector);
        }
        (b & 0x000F) as u8
    }

    /// A 4-bit value, the lower 4 bits of the high byte of the instruction.
    pub fn x(&self) -> (r: u8)
        ensures
            r == op_x(self@),
            r < 16,
    {
        let b = self.bits;
        proof {
            assert((b & 0x0F00) >> 8 < 16) by (bit_vector);
        }
        ((b & 0x0F00) >> 8) as u8
    }

    /// A 4-bit value, the upper 4 bits of the low byte of the instruction.
    pub fn y(self) -> (r: u8)
        ensures
            r == op_y(self@),
            r < 16,
    {
        let b = self.bits;
        proof {
            assert((b & 0x00F0) >> 4 < 16) by (bit_vector);
        }
        ((b & 0x00F0) >> 4) as u8
    }

    /// An 8-bit value, the lowest 8 bits of the instruction.
    pub fn byte(self) -> (r: u8)
        ensures
            r == op_byte(self@),
    {
        let b = self.bits;
        proof {
            assert(b & 0x00FF < 256) by (bit_vector);
        }
        (b & 0x00FF) as u8
    }
}

/// Reads the two consecutive bytes at `pc` (big-endian, high byte first)
/// into a 16-bit instruction word.
pub fn get_opcode(mem: &[u8], pc: u16) -> (r: Opcode)
    requires
        pc as int + 1 < mem@.len(),
    ensures
        r@ == mem@[pc as int] as u16 * 256 + mem@[pc as int + 1] as u16,
{
    let hi = mem[pc as usize];
    let lo = mem[pc as usize + 1];
    proof {
        assert(((hi as u16) << 8) | (lo as u16) == hi as u16 * 256 + lo as u16) by (bit_vector);
    }
    Opcode::new(((hi as u16) << 8) | (lo as u16))
}

} // verus!
