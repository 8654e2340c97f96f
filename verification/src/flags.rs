//! The condition flags gt, eq, ls, ov, and the SETFLG update codes.
//!
//! SETFLG carries four independent 2-bit fields, one per flag, each applied
//! as: 00 = clear, 01 = keep, 10 = invert, 11 = set.

use vstd::prelude::*;

verus! {

/// The four condition flags of one emulation run.
#[derive(Clone, Copy, Debug, PartialEq, Eq, Structural)]
pub struct Flags {
    pub gt_flag: bool,
    pub eq_flag: bool,
    pub ls_flag: bool,
    pub ov_flag: bool,
}

/// The flags at emulator start: all clear.
pub open spec fn spec_init_flags() -> Flags {
    Flags { gt_flag: false, eq_flag: false, ls_flag: false, ov_flag: false }
}

impl Flags {
    /// All flags clear, as at emulator start.
    pub fn new() -> (r: Flags)
        ensures
            r == spec_init_flags(),
    {
        Flags { gt_flag: false, eq_flag: false, ls_flag: false, ov_flag: false }
    }
}

/// One 2-bit SETFLG field applied to a flag:
/// 0 clears it, 1 keeps it, 2 inverts it, 3 sets it.
pub open spec fn spec_apply_flag_code(code: u16, cur: bool) -> bool {
    if code == 0 {
        false
    } else if code == 1 {
        cur
    } else if code == 2 {
        !cur
    } else {
        true
    }
}

/// Applies one 2-bit SETFLG field to a flag.
pub fn apply_flag_code(code: u16, cur: bool) -> (r: bool)
    requires
        code < 4,
    ensures
        r == spec_apply_flag_code(code, cur),
{
    if code == 0 {
        false
    } else if code == 1 {
        cur
    } else if code == 2 {
        !cur
    } else {
        true
    }
}

/// The flags after a SETFLG instruction word: bits 7-6 update gt,
/// bits 5-4 update eq, bits 3-2 update ls, bits 1-0 update ov.
pub open spec fn spec_setflg(instr: u16, f: Flags) -> Flags {
    Flags {
        gt_flag: spec_apply_flag_code((instr & 0x00C0) >> 6, f.gt_flag),
        eq_flag: spec_apply_flag_code((instr & 0x0030) >> 4, f.eq_flag),
        ls_flag: spec_apply_flag_code((instr & 0x000C) >> 2, f.ls_flag),
        ov_flag: spec_apply_flag_code(instr & 0x0003, f.ov_flag),
    }
}

/// Each 2-bit SETFLG field of an instruction word is below 4.
proof fn lemma_setflg_fields(instr: u16)
    by (bit_vector)
    ensures
        (instr & 0x00C0) >> 6 < 4,
        (instr & 0x0030) >> 4 < 4,
        (instr & 0x000C) >> 2 < 4,
        instr & 0x0003 < 4,
{
}

/// Applies a SETFLG instruction word to the flags.
pub fn apply_setflg(instr: u16, flags: &mut Flags)
    ensures
        *final(flags) == spec_setflg(instr, *old(flags)),
{
    proof {
        lemma_setflg_fields(instr);
    }
    let gt_flag = apply_flag_code((instr & 0x00C0) >> 6, flags.gt_flag);
    let eq_flag = apply_flag_code((instr & 0x0030) >> 4, flags.eq_flag);
    let ls_flag = apply_flag_code((instr & 0x000C) >> 2, flags.ls_flag);
    let ov_flag = apply_flag_code(instr & 0x0003, flags.ov_flag);
    *flags = Flags { gt_flag, eq_flag, ls_flag, ov_flag };
}

/// The 3-bit flag word read by the jump-condition evaluator:
/// `4 * gt + 2 * eq + ls`.
pub open spec fn spec_flags_num(f: Flags) -> u16 {
    ((if f.gt_flag {
        4int
    } else {
        0int
    }) + (if f.eq_flag {
        2int
    } else {
        0int
    }) + (if f.ls_flag {
        1int
    } else {
        0int
    })) as u16
}

/// Computes the 3-bit flag word.
pub fn flags_num(f: &Flags) -> (r: u16)
    ensures
        r == spec_flags_num(*f),
        r < 8,
{
    (if f.gt_flag {
        4
    } else {
        0
    }) + (if f.eq_flag {
        2
    } else {
        0
    }) + (if f.ls_flag {
        1
    } else {
        0
    })
}

/// The jump condition of JA.  Code 7 always jumps; code 0 jumps exactly
/// when the flag word is odd (that is, when ls is set); any other code
/// jumps exactly when it equals the flag word.  The last case is the one
/// resolution chosen here for the otherwise underdetermined general case.
pub open spec fn spec_jump(cond: u16, f: Flags) -> bool {
    if cond == 7 {
        true
    } else if cond == 0 {
        spec_flags_num(f) % 2 == 1
    } else {
        cond == spec_flags_num(f)
    }
}

/// Evaluates the JA jump condition against the flags.
pub fn jump_taken(cond: u16, f: &Flags) -> (r: bool)
    requires
        cond < 8,
    ensures
        r == spec_jump(cond, *f),
{
    if cond == 7 {
        true
    } else if cond == 0 {
        flags_num(f) % 2 == 1
    } else {
        cond == flags_num(f)
    }
}

} // verus!
