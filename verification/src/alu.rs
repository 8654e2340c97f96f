//! The ALU: PASS, ADD, SUB and MUL over 16-bit operands.
//!
//! Operation codes are the 4-bit field extracted from an instruction,
//! always OR'd with a fixed high bit (0b1_0000) to set them apart from the
//! other opcode spaces.  ADD, SUB and MUL are unsigned 16-bit wraparound
//! operations and set the ov flag to whether the mathematical result left
//! the 16-bit range; PASS hands the B bus through and leaves ov unchanged.

use vstd::prelude::*;

verus! {

/// PASS: output = B bus, A bus unused, ov unchanged.
pub const ALU_PASS: u16 = 0b10100;

/// ADD: unsigned 16-bit wraparound addition.
pub const ALU_ADD: u16 = 0b10101;

/// SUB: unsigned 16-bit wraparound subtraction.
pub const ALU_SUB: u16 = 0b10110;

/// MUL: unsigned 16-bit wraparound multiplication.
pub const ALU_MUL: u16 = 0b10111;

/// What an ALU operation yields: the result word and the new ov flag, or
/// nothing for an unimplemented operation code.
pub open spec fn spec_alu(op: u16, a: u16, b: u16, ov: bool) -> Option<(u16, bool)> {
    if op == ALU_PASS {
        Some((b, ov))
    } else if op == ALU_ADD {
        Some((((a + b) % 0x10000) as u16, a + b > 0xFFFF))
    } else if op == ALU_SUB {
        Some(
            (
                if a >= b {
                    (a - b) as u16
                } else {
                    (a - b + 0x10000) as u16
                },
                a < b,
            ),
        )
    } else if op == ALU_MUL {
        Some((((a * b) % 0x10000) as u16, a * b > 0xFFFF))
    } else {
        None
    }
}

/// Runs one ALU operation: `Some((result, new_ov))`, or `None` for an
/// unimplemented operation code.
pub fn alu(op: u16, a: u16, b: u16, ov: bool) -> (r: Option<(u16, bool)>)
    ensures
        r == spec_alu(op, a, b, ov),
{
    if op == ALU_PASS {
        Some((b, ov))
    } else if op == ALU_ADD {
        let s: u32 = (a as u32) + (b as u32);
        if s > 0xFFFF {
            proof {
                assert((a + b) % 0x10000 == a + b - 0x10000);
            }
            Some((((s - 0x10000) as u16), true))
        } else {
            proof {
                assert((a + b) % 0x10000 == a + b);
            }
            Some(((s as u16), false))
        }
    } else if op == ALU_SUB {
        if a >= b {
            Some((a - b, false))
        } else {
            Some(((((a as u32) + 0x10000 - (b as u32)) as u16), true))
        }
    } else if op == ALU_MUL {
        proof {
            assert((a as u32) * (b as u32) <= 0xFFFFu32 * 0xFFFFu32) by (nonlinear_arith)
                requires
                    a <= 0xFFFF,
                    b <= 0xFFFF,
            ;
        }
        let p: u32 = (a as u32) * (b as u32);
        proof {
            assert(p == a * b);
            assert(p % 0x10000 == (a * b) % 0x10000);
        }
        Some((((p % 0x10000) as u16), p > 0xFFFF))
    } else {
        None
    }
}

} // verus!
