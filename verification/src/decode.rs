//! The instruction decoder: a pure split of a raw 16-bit instruction into
//! its conventional fields, with no side effects and no failure mode.

use vstd::prelude::*;

verus! {

/// The primary 4-bit operation selector.
pub open spec fn op_nibble(instruction: u16) -> u8 {
    ((instruction >> 12) & 0xF) as u8
}

/// The X register index: the second nibble.
pub open spec fn x_field(instruction: u16) -> u8 {
    ((instruction >> 8) & 0xF) as u8
}

/// The Y register index: the third nibble.
pub open spec fn y_field(instruction: u16) -> u8 {
    ((instruction >> 4) & 0xF) as u8
}

/// The low nibble.
pub open spec fn n_field(instruction: u16) -> u8 {
    (instruction & 0xF) as u8
}

/// The low byte.
pub open spec fn nn_field(instruction: u16) -> u8 {
    (instruction & 0xFF) as u8
}

/// The low 12 bits: an address operand.
pub open spec fn nnn_field(instruction: u16) -> u16 {
    instruction & 0xFFF
}

/// Every decoded field lies in its range.
pub proof fn lemma_field_bounds(instruction: u16)
    by (bit_vector)
    ensures
        op_nibble(instruction) < 16,
        x_field(instruction) < 16,
        y_field(instruction) < 16,
        n_field(instruction) < 16,
        nnn_field(instruction) < 0x1000,
{
}

/// A raw instruction split into opcode nibble, register indices and the
/// three operand widths; derived afresh for each instruction, never stored.
pub struct ParsedInstruction {
    pub opcode: u8,
    pub x: u8,
    pub y: u8,
    pub n: u8,
    pub nn: u8,
    pub nnn: u16,
}

impl ParsedInstruction {
    /// Splits `instruction` into its fields by fixed masks and shifts.
    pub fn build(instruction: u16) -> (p: ParsedInstruction)
        ensures
            p.opcode == op_nibble(instruction),
            p.x == x_field(instruction),
            p.y == y_field(instruction),
            p.n == n_field(instruction),
            p.nn == nn_field(instruction),
            p.nnn == nnn_field(instruction),
            p.opcode < 16,
            p.x < 16,
            p.y < 16,
            p.n < 16,
            p.nnn < 0x1000,
    {
        proof {
            lemma_field_bounds(instruction);
        }
        ParsedInstruction {
            opcode: ((instruction >> 12) & 0xF) as u8,
            x: ((instruction >> 8) & 0xF) as u8,
            y: ((instruction >> 4) & 0xF) as u8,
            n: (instruction & 0xF) as u8,
            nn: (instruction & 0xFF) as u8,
            nnn: instruction & 0xFFF,
        }
    }
}

} // verus!
