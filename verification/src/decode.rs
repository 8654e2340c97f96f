//! Instruction decoding: one 16-bit word to an opcode class and its
//! operand fields.
//!
//! The bit patterns overlap numerically, so they are tested in a fixed
//! precedence order and the first match wins; that order is part of the
//! encoding contract, not incidental.

use vstd::prelude::*;

verus! {

/// A decoded instruction.  ALU operation fields (`op`) carry the fixed
/// high bit already OR'd in, as in `crate::alu`.
#[derive(Clone, Copy, Debug, PartialEq, Eq, Structural)]
pub enum Instr {
    /// The all-zero word: halts the run.
    Nop,
    /// Four 2-bit flag-update fields.
    SetFlg { gt_code: u16, eq_code: u16, ls_code: u16, ov_code: u16 },
    /// Jump to the wide register `wide` when condition `cond` holds.
    Ja { cond: u16, wide: u16 },
    /// Write thin register `src` to memory at the address in `wide`.
    Store { src: u16, wide: u16 },
    /// Load the memory word at the address in `wide` into thin register `dst`.
    Load { dst: u16, wide: u16 },
    /// Register-register ALU operation.
    Tra { op: u16, out: u16, b: u16, a: u16 },
    /// Register-immediate ALU operation.
    Im { op: u16, imm: u16, out: u16, a: u16 },
}

/// What a word decodes to, or `None` for an unknown opcode.  The branches
/// are tested in this precedence order.
pub open spec fn spec_decode(instr: u16) -> Option<Instr> {
    if instr == 0 {
        Some(Instr::Nop)
    } else if instr < 0x0200 {
        None
    } else if instr < 0x0300 {
        Some(
            Instr::SetFlg {
                gt_code: (instr & 0x00C0) >> 6,
                eq_code: (instr & 0x0030) >> 4,
                ls_code: (instr & 0x000C) >> 2,
                ov_code: instr & 0x0003,
            },
        )
    } else if instr < 0x0320 {
        Some(Instr::Ja { cond: (instr & 0x001C) >> 2, wide: instr & 0x0003 })
    } else if instr < 0x0340 {
        Some(Instr::Store { src: (instr & 0x001C) >> 2, wide: instr & 0x0003 })
    } else if instr < 0x0360 {
        Some(Instr::Load { dst: (instr & 0x001C) >> 2, wide: instr & 0x0003 })
    } else if (instr & 0xE000) >> 13 == 1 {
        Some(
            Instr::Tra {
                op: ((instr & 0x1E00) >> 9) | 0b10000,
                out: (instr & 0x01C0) >> 6,
                b: (instr & 0x0038) >> 3,
                a: instr & 0x0007,
            },
        )
    } else if instr & 0xC000 != 0 {
        Some(
            Instr::Im {
                op: ((instr & 0xF000) >> 12) | 0b10000,
                imm: (instr & 0x0FC0) >> 6,
                out: (instr & 0x0038) >> 3,
                a: instr & 0x0007,
            },
        )
    } else {
        None
    }
}

/// Every operand field a decoded instruction can carry lies within its
/// bit-field's range.
pub open spec fn spec_instr_bounded(i: Instr) -> bool {
    match i {
        Instr::Nop => true,
        Instr::SetFlg { gt_code, eq_code, ls_code, ov_code } => gt_code < 4 && eq_code < 4
            && ls_code < 4 && ov_code < 4,
        Instr::Ja { cond, wide } => cond < 8 && wide < 4,
        Instr::Store { src, wide } => src < 8 && wide < 4,
        Instr::Load { dst, wide } => dst < 8 && wide < 4,
        Instr::Tra { op, out, b, a } => 0b10000 <= op < 0b100000 && out < 8 && b < 8 && a < 8,
        Instr::Im { op, imm, out, a } => 0b10000 <= op < 0b100000 && imm < 64 && out < 8 && a < 8,
    }
}

/// Range facts about every operand field extraction used by the decoder.
proof fn lemma_decode_field_bounds(w: u16)
    by (bit_vector)
    ensures
        (w & 0x00C0) >> 6 < 4,
        (w & 0x0030) >> 4 < 4,
        (w & 0x000C) >> 2 < 4,
        w & 0x0003 < 4,
        (w & 0x001C) >> 2 < 8,
        (w & 0x01C0) >> 6 < 8,
        (w & 0x0038) >> 3 < 8,
        w & 0x0007 < 8,
        0b10000 <= (((w & 0x1E00) >> 9) | 0b10000) < 0b100000,
        0b10000 <= (((w & 0xF000) >> 12) | 0b10000) < 0b100000,
        (w & 0x0FC0) >> 6 < 64,
{
}

/// Decodes one instruction word; `None` is an unknown opcode.
pub fn decode(instr: u16) -> (r: Option<Instr>)
    ensures
        r == spec_decode(instr),
        r matches Some(i) ==> spec_instr_bounded(i),
{
    proof {
        lemma_decode_field_bounds(instr);
    }
    if instr == 0 {
        Some(Instr::Nop)
    } else if instr < 0x0200 {
        None
    } else if instr < 0x0300 {
        Some(
            Instr::SetFlg {
                gt_code: (instr & 0x00C0) >> 6,
                eq_code: (instr & 0x0030) >> 4,
                ls_code: (instr & 0x000C) >> 2,
                ov_code: instr & 0x0003,
            },
        )
    } else if instr < 0x0320 {
        Some(Instr::Ja { cond: (instr & 0x001C) >> 2, wide: instr & 0x0003 })
    } else if instr < 0x0340 {
        Some(Instr::Store { src: (instr & 0x001C) >> 2, wide: instr & 0x0003 })
    } else if instr < 0x0360 {
        Some(Instr::Load { dst: (instr & 0x001C) >> 2, wide: instr & 0x0003 })
    } else if (instr & 0xE000) >> 13 == 1 {
        Some(
            Instr::Tra {
                op: ((instr & 0x1E00) >> 9) | 0b10000,
                out: (instr & 0x01C0) >> 6,
                b: (instr & 0x0038) >> 3,
                a: instr & 0x0007,
            },
        )
    } else if instr & 0xC000 != 0 {
        Some(
            Instr::Im {
                op: ((instr & 0xF000) >> 12) | 0b10000,
                imm: (instr & 0x0FC0) >> 6,
                out: (instr & 0x0038) >> 3,
                a: instr & 0x0007,
            },
        )
    } else {
        None
    }
}

} // verus!
