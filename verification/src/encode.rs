//! Mapping a mnemonic and its extracted operands to one packed 16-bit
//! word — the inverse of `crate::decode`.  Every mnemonic of the opcode
//! table has an encoder: NOP, SETFLG, JA, STORE, LOAD, LOADIMM, and each
//! ALU operation in both its register-register (three thin registers) and
//! register-immediate (one immediate, two thin registers) form.
//!
//! The round-trip lemmas at the end state the encoding contract both
//! tools share: decoding an assembled word recovers exactly the mnemonic
//! class and operand values that were encoded.

use vstd::prelude::*;

use crate::decode::{spec_decode, Instr};

verus! {

/// A recognized mnemonic.  PASS, ADD, SUB and MUL choose between their
/// register-register and register-immediate encoding by operand shape.
#[derive(Clone, Copy, Debug, PartialEq, Eq, Structural)]
pub enum Mnemonic {
    Nop,
    SetFlg,
    Ja,
    Store,
    Load,
    LoadImm,
    Pass,
    Add,
    Sub,
    Mul,
}

/// What mnemonic a token names, if any.
pub open spec fn spec_mnemonic(t: Seq<u8>) -> Option<Mnemonic> {
    if t == seq![78u8, 79u8, 80u8] {  // NOP
        Some(Mnemonic::Nop)
    } else if t == seq![83u8, 69u8, 84u8, 70u8, 76u8, 71u8] {  // SETFLG
        Some(Mnemonic::SetFlg)
    } else if t == seq![74u8, 65u8] {  // JA
        Some(Mnemonic::Ja)
    } else if t == seq![83u8, 84u8, 79u8, 82u8, 69u8] {  // STORE
        Some(Mnemonic::Store)
    } else if t == seq![76u8, 79u8, 65u8, 68u8] {  // LOAD
        Some(Mnemonic::Load)
    } else if t == seq![76u8, 79u8, 65u8, 68u8, 73u8, 77u8, 77u8] {  // LOADIMM
        Some(Mnemonic::LoadImm)
    } else if t == seq![80u8, 65u8, 83u8, 83u8] {  // PASS
        Some(Mnemonic::Pass)
    } else if t == seq![65u8, 68u8, 68u8] {  // ADD
        Some(Mnemonic::Add)
    } else if t == seq![83u8, 85u8, 66u8] {  // SUB
        Some(Mnemonic::Sub)
    } else if t == seq![77u8, 85u8, 76u8] {  // MUL
        Some(Mnemonic::Mul)
    } else {
        None
    }
}

/// Recognizes a mnemonic token.
pub fn mnemonic_of(t: &Vec<u8>) -> (r: Option<Mnemonic>)
    ensures
        r == spec_mnemonic(t@),
{
    let n = t.len();
    if n == 3 && t[0] == 78 && t[1] == 79 && t[2] == 80 {
        proof {
            assert(t@ =~= seq![78u8, 79u8, 80u8]);
        }
        Some(Mnemonic::Nop)
    } else if n == 6 && t[0] == 83 && t[1] == 69 && t[2] == 84 && t[3] == 70 && t[4] == 76 && t[5]
        == 71 {
        proof {
            assert(t@ =~= seq![83u8, 69u8, 84u8, 70u8, 76u8, 71u8]);
        }
        Some(Mnemonic::SetFlg)
    } else if n == 2 && t[0] == 74 && t[1] == 65 {
        proof {
            assert(t@ =~= seq![74u8, 65u8]);
        }
        Some(Mnemonic::Ja)
    } else if n == 5 && t[0] == 83 && t[1] == 84 && t[2] == 79 && t[3] == 82 && t[4] == 69 {
        proof {
            assert(t@ =~= seq![83u8, 84u8, 79u8, 82u8, 69u8]);
        }
        Some(Mnemonic::Store)
    } else if n == 4 && t[0] == 76 && t[1] == 79 && t[2] == 65 && t[3] == 68 {
        proof {
            assert(t@ =~= seq![76u8, 79u8, 65u8, 68u8]);
        }
        Some(Mnemonic::Load)
    } else if n == 7 && t[0] == 76 && t[1] == 79 && t[2] == 65 && t[3] == 68 && t[4] == 73 && t[5]
        == 77 && t[6] == 77 {
        proof {
            assert(t@ =~= seq![76u8, 79u8, 65u8, 68u8, 73u8, 77u8, 77u8]);
        }
        Some(Mnemonic::LoadImm)
    } else if n == 4 && t[0] == 80 && t[1] == 65 && t[2] == 83 && t[3] == 83 {
        proof {
            assert(t@ =~= seq![80u8, 65u8, 83u8, 83u8]);
        }
        Some(Mnemonic::Pass)
    } else if n == 3 && t[0] == 65 && t[1] == 68 && t[2] == 68 {
        proof {
            assert(t@ =~= seq![65u8, 68u8, 68u8]);
        }
        Some(Mnemonic::Add)
    } else if n == 3 && t[0] == 83 && t[1] == 85 && t[2] == 66 {
        proof {
            assert(t@ =~= seq![83u8, 85u8, 66u8]);
        }
        Some(Mnemonic::Sub)
    } else if n == 3 && t[0] == 77 && t[1] == 85 && t[2] == 76 {
        proof {
            assert(t@ =~= seq![77u8, 85u8, 76u8]);
        }
        Some(Mnemonic::Mul)
    } else {
        None
    }
}

/// The raw 4-bit ALU field an ALU mnemonic encodes to, without the fixed
/// high bit the decoder ORs in.
pub open spec fn spec_alu_field(m: Mnemonic) -> u16
    recommends
        m is Pass || m is Add || m is Sub || m is Mul,
{
    match m {
        Mnemonic::Pass => 4,
        Mnemonic::Add => 5,
        Mnemonic::Sub => 6,
        Mnemonic::Mul => 7,
        _ => 0,
    }
}

/// The SETFLG word: four 2-bit flag-update fields.
pub open spec fn spec_setflg_word(g: u16, e: u16, l: u16, o: u16) -> u16 {
    0x0200u16 | (g << 6) | (e << 4) | (l << 2) | o
}

/// The JA word: a 3-bit condition code and a 2-bit wide register.
pub open spec fn spec_ja_word(cond: u16, wide: u16) -> u16 {
    0x0300u16 | (cond << 2) | wide
}

/// The STORE word: a 3-bit thin source and a 2-bit wide address register.
pub open spec fn spec_store_word(src: u16, wide: u16) -> u16 {
    0x0320u16 | (src << 2) | wide
}

/// The LOAD word: a 3-bit thin destination and a 2-bit wide address register.
pub open spec fn spec_load_word(dst: u16, wide: u16) -> u16 {
    0x0340u16 | (dst << 2) | wide
}

/// The register-register ALU word: `001` in the top bits, then the raw
/// ALU field, the out register, the b register and the a register.
pub open spec fn spec_tra_word(op4: u16, out: u16, b: u16, a: u16) -> u16 {
    0x2000u16 | (op4 << 9) | (out << 6) | (b << 3) | a
}

/// The register-immediate ALU word: the raw ALU field in the top nibble,
/// a 6-bit immediate, the out register and the a register.
pub open spec fn spec_im_word(op4: u16, imm: u16, out: u16, a: u16) -> u16 {
    (op4 << 12) | (imm << 6) | (out << 3) | a
}

/// The LOADIMM word: the IM pattern with ALU operation PASS, the a
/// register unused, and a widened 9-bit immediate field at bits 14-6.
pub open spec fn spec_loadimm_word(imm: u16, out: u16) -> u16 {
    0x4000u16 | (imm << 6) | (out << 3)
}

/// The word a mnemonic and its scanned operands encode to, or `None` when
/// the operand shape does not fit the mnemonic's pattern.  Immediates are
/// assumed already width-checked (below 512 for LOADIMM, below 64
/// elsewhere).
pub open spec fn spec_encode(m: Mnemonic, imms: Seq<u16>, thins: Seq<u16>, wides: Seq<u16>) -> Option<
    u16,
> {
    match m {
        Mnemonic::Nop => if imms.len() == 0 && thins.len() == 0 && wides.len() == 0 {
            Some(0u16)
        } else {
            None
        },
        Mnemonic::SetFlg => if imms.len() == 4 && thins.len() == 0 && wides.len() == 0 && imms[0]
            < 4 && imms[1] < 4 && imms[2] < 4 && imms[3] < 4 {
            Some(spec_setflg_word(imms[0], imms[1], imms[2], imms[3]))
        } else {
            None
        },
        Mnemonic::Ja => if imms.len() == 1 && thins.len() == 0 && wides.len() == 1 && imms[0] < 8 {
            Some(spec_ja_word(imms[0], wides[0]))
        } else {
            None
        },
        Mnemonic::Store => if imms.len() == 0 && thins.len() == 1 && wides.len() == 1 && thins[0]
            < 8 {
            Some(spec_store_word(thins[0], wides[0]))
        } else {
            None
        },
        Mnemonic::Load => if imms.len() == 0 && thins.len() == 1 && wides.len() == 1 && thins[0]
            < 8 {
            Some(spec_load_word(thins[0], wides[0]))
        } else {
            None
        },
        Mnemonic::LoadImm => if imms.len() == 1 && thins.len() == 1 && wides.len() == 0 && imms[0]
            < 512 && thins[0] < 8 {
            Some(spec_loadimm_word(imms[0], thins[0]))
        } else {
            None
        },
        _ => if imms.len() == 0 && thins.len() == 3 && wides.len() == 0 && thins[0] < 8 && thins[1]
            < 8 && thins[2] < 8 {
            Some(spec_tra_word(spec_alu_field(m), thins[2], thins[1], thins[0]))
        } else if imms.len() == 1 && thins.len() == 2 && wides.len() == 0 && imms[0] < 64
            && thins[0] < 8 && thins[1] < 8 {
            Some(spec_im_word(spec_alu_field(m), imms[0], thins[1], thins[0]))
        } else {
            None
        },
    }
}

/// Encodes one instruction; `None` is an operand-pattern mismatch.
pub fn encode_instruction(m: Mnemonic, imms: &Vec<u16>, thins: &Vec<u16>, wides: &Vec<u16>) -> (r:
    Option<u16>)
    ensures
        r == spec_encode(m, imms@, thins@, wides@),
{
    match m {
        Mnemonic::Nop => {
            if imms.len() == 0 && thins.len() == 0 && wides.len() == 0 {
                Some(0u16)
            } else {
                None
            }
        },
        Mnemonic::SetFlg => {
            if imms.len() == 4 && thins.len() == 0 && wides.len() == 0 && imms[0] < 4 && imms[1] < 4
                && imms[2] < 4 && imms[3] < 4 {
                Some(0x0200u16 | (imms[0] << 6) | (imms[1] << 4) | (imms[2] << 2) | imms[3])
            } else {
                None
            }
        },
        Mnemonic::Ja => {
            if imms.len() == 1 && thins.len() == 0 && wides.len() == 1 && imms[0] < 8 {
                Some(0x0300u16 | (imms[0] << 2) | wides[0])
            } else {
                None
            }
        },
        Mnemonic::Store => {
            if imms.len() == 0 && thins.len() == 1 && wides.len() == 1 && thins[0] < 8 {
                Some(0x0320u16 | (thins[0] << 2) | wides[0])
            } else {
                None
            }
        },
        Mnemonic::Load => {
            if imms.len() == 0 && thins.len() == 1 && wides.len() == 1 && thins[0] < 8 {
                Some(0x0340u16 | (thins[0] << 2) | wides[0])
            } else {
                None
            }
        },
        Mnemonic::LoadImm => {
            if imms.len() == 1 && thins.len() == 1 && wides.len() == 0 && imms[0] < 512 && thins[0]
                < 8 {
                Some(0x4000u16 | (imms[0] << 6) | (thins[0] << 3))
            } else {
                None
            }
        },
        Mnemonic::Pass | Mnemonic::Add | Mnemonic::Sub | Mnemonic::Mul => {
            let op4: u16 = match m {
                Mnemonic::Pass => 4,
                Mnemonic::Add => 5,
                Mnemonic::Sub => 6,
                _ => 7,
            };
            if imms.len() == 0 && thins.len() == 3 && wides.len() == 0 && thins[0] < 8 && thins[1]
                < 8 && thins[2] < 8 {
                Some(0x2000u16 | (op4 << 9) | (thins[2] << 6) | (thins[1] << 3) | thins[0])
            } else if imms.len() == 1 && thins.len() == 2 && wides.len() == 0 && imms[0] < 64
                && thins[0] < 8 && thins[1] < 8 {
                Some((op4 << 12) | (imms[0] << 6) | (thins[1] << 3) | thins[0])
            } else {
                None
            }
        },
    }
}

/// Bit identities for the SETFLG round trip.
proof fn bv_setflg(g: u16, e: u16, l: u16, o: u16)
    by (bit_vector)
    requires
        g < 4,
        e < 4,
        l < 4,
        o < 4,
    ensures
        0x0200 <= (0x0200u16 | (g << 6) | (e << 4) | (l << 2) | o) < 0x0300,
        ((0x0200u16 | (g << 6) | (e << 4) | (l << 2) | o) & 0x00C0) >> 6 == g,
        ((0x0200u16 | (g << 6) | (e << 4) | (l << 2) | o) & 0x0030) >> 4 == e,
        ((0x0200u16 | (g << 6) | (e << 4) | (l << 2) | o) & 0x000C) >> 2 == l,
        (0x0200u16 | (g << 6) | (e << 4) | (l << 2) | o) & 0x0003 == o,
{
}

/// Bit identities for the JA, STORE and LOAD round trips; `base` is the
/// fixed opcode prefix of one of the three.
proof fn bv_reg_pair(base: u16, f: u16, w: u16)
    by (bit_vector)
    requires
        base == 0x0300 || base == 0x0320 || base == 0x0340,
        f < 8,
        w < 4,
    ensures
        base <= (base | (f << 2) | w) < base + 0x20,
        ((base | (f << 2) | w) & 0x001C) >> 2 == f,
        (base | (f << 2) | w) & 0x0003 == w,
{
}

/// Bit identities for the register-register ALU round trip.
proof fn bv_tra(op4: u16, out: u16, b: u16, a: u16)
    by (bit_vector)
    requires
        op4 < 16,
        out < 8,
        b < 8,
        a < 8,
    ensures
        (0x2000u16 | (op4 << 9) | (out << 6) | (b << 3) | a) >= 0x2000,
        ((0x2000u16 | (op4 << 9) | (out << 6) | (b << 3) | a) & 0xE000) >> 13 == 1,
        ((0x2000u16 | (op4 << 9) | (out << 6) | (b << 3) | a) & 0x1E00) >> 9 == op4,
        ((0x2000u16 | (op4 << 9) | (out << 6) | (b << 3) | a) & 0x01C0) >> 6 == out,
        ((0x2000u16 | (op4 << 9) | (out << 6) | (b << 3) | a) & 0x0038) >> 3 == b,
        (0x2000u16 | (op4 << 9) | (out << 6) | (b << 3) | a) & 0x0007 == a,
{
}

/// Bit identities for the register-immediate ALU round trip.
proof fn bv_im(op4: u16, imm: u16, out: u16, a: u16)
    by (bit_vector)
    requires
        4 <= op4 < 8,
        imm < 64,
        out < 8,
        a < 8,
    ensures
        ((op4 << 12) | (imm << 6) | (out << 3) | a) >= 0x4000,
        ((op4 << 12) | (imm << 6) | (out << 3) | a) & 0xC000 != 0,
        (((op4 << 12) | (imm << 6) | (out << 3) | a) & 0xE000) >> 13 != 1,
        (((op4 << 12) | (imm << 6) | (out << 3) | a) & 0xF000) >> 12 == op4,
        (((op4 << 12) | (imm << 6) | (out << 3) | a) & 0x0FC0) >> 6 == imm,
        (((op4 << 12) | (imm << 6) | (out << 3) | a) & 0x0038) >> 3 == out,
        ((op4 << 12) | (imm << 6) | (out << 3) | a) & 0x0007 == a,
{
}

/// Bit identities for the LOADIMM round trip, for immediates that fit the
/// decoder's 6-bit field.
proof fn bv_loadimm(imm: u16, out: u16)
    by (bit_vector)
    requires
        imm < 64,
        out < 8,
    ensures
        (0x4000u16 | (imm << 6) | (out << 3)) >= 0x4000,
        (0x4000u16 | (imm << 6) | (out << 3)) & 0xC000 != 0,
        ((0x4000u16 | (imm << 6) | (out << 3)) & 0xE000) >> 13 != 1,
        ((0x4000u16 | (imm << 6) | (out << 3)) & 0xF000) >> 12 == 4,
        ((0x4000u16 | (imm << 6) | (out << 3)) & 0x0FC0) >> 6 == imm,
        ((0x4000u16 | (imm << 6) | (out << 3)) & 0x0038) >> 3 == out,
        (0x4000u16 | (imm << 6) | (out << 3)) & 0x0007 == 0,
{
}

/// Round trip of NOP: the all-zero word decodes back to NOP.
pub proof fn lemma_round_trip_nop()
    ensures
        spec_encode(Mnemonic::Nop, Seq::empty(), Seq::empty(), Seq::empty()) == Some(0u16),
        spec_decode(0) == Some(Instr::Nop),
{
}

/// Round trip of SETFLG: the assembled word decodes back to SETFLG with
/// the four flag-update codes that were assembled.
pub proof fn lemma_round_trip_setflg(g: u16, e: u16, l: u16, o: u16)
    requires
        g < 4,
        e < 4,
        l < 4,
        o < 4,
    ensures
        spec_encode(Mnemonic::SetFlg, seq![g, e, l, o], Seq::empty(), Seq::empty()) == Some(
            spec_setflg_word(g, e, l, o),
        ),
        spec_decode(spec_setflg_word(g, e, l, o)) == Some(
            Instr::SetFlg { gt_code: g, eq_code: e, ls_code: l, ov_code: o },
        ),
{
    bv_setflg(g, e, l, o);
}

/// Round trip of JA: the assembled word decodes back to JA with the same
/// condition code and wide register.
pub proof fn lemma_round_trip_ja(cond: u16, wide: u16)
    requires
        cond < 8,
        wide < 4,
    ensures
        spec_encode(Mnemonic::Ja, seq![cond], Seq::empty(), seq![wide]) == Some(
            spec_ja_word(cond, wide),
        ),
        spec_decode(spec_ja_word(cond, wide)) == Some(Instr::Ja { cond, wide }),
{
    bv_reg_pair(0x0300, cond, wide);
}

/// Round trip of STORE: the assembled word decodes back to STORE with the
/// same thin source and wide address register.
pub proof fn lemma_round_trip_store(src: u16, wide: u16)
    requires
        src < 8,
        wide < 4,
    ensures
        spec_encode(Mnemonic::Store, Seq::empty(), seq![src], seq![wide]) == Some(
            spec_store_word(src, wide),
        ),
        spec_decode(spec_store_word(src, wide)) == Some(Instr::Store { src, wide }),
{
    bv_reg_pair(0x0320, src, wide);
}

/// Round trip of LOAD: the assembled word decodes back to LOAD with the
/// same thin destination and wide address register.
pub proof fn lemma_round_trip_load(dst: u16, wide: u16)
    requires
        dst < 8,
        wide < 4,
    ensures
        spec_encode(Mnemonic::Load, Seq::empty(), seq![dst], seq![wide]) == Some(
            spec_load_word(dst, wide),
        ),
        spec_decode(spec_load_word(dst, wide)) == Some(Instr::Load { dst, wide }),
{
    bv_reg_pair(0x0340, dst, wide);
}

/// Round trip of the register-register ALU forms: the assembled word
/// decodes back to the same ALU operation, out, b and a registers.
pub proof fn lemma_round_trip_tra(m: Mnemonic, a: u16, b: u16, out: u16)
    requires
        m is Pass || m is Add || m is Sub || m is Mul,
        a < 8,
        b < 8,
        out < 8,
    ensures
        spec_encode(m, Seq::empty(), seq![a, b, out], Seq::empty()) == Some(
            spec_tra_word(spec_alu_field(m), out, b, a),
        ),
        spec_decode(spec_tra_word(spec_alu_field(m), out, b, a)) == Some(
            Instr::Tra { op: (spec_alu_field(m) | 0b10000) as u16, out, b, a },
        ),
{
    bv_tra(spec_alu_field(m), out, b, a);
}

/// Round trip of the register-immediate ALU forms: the assembled word
/// decodes back to the same ALU operation, immediate, out and a registers.
pub proof fn lemma_round_trip_im(m: Mnemonic, imm: u16, a: u16, out: u16)
    requires
        m is Pass || m is Add || m is Sub || m is Mul,
        imm < 64,
        a < 8,
        out < 8,
    ensures
        spec_encode(m, seq![imm], seq![a, out], Seq::empty()) == Some(
            spec_im_word(spec_alu_field(m), imm, out, a),
        ),
        spec_decode(spec_im_word(spec_alu_field(m), imm, out, a)) == Some(
            Instr::Im { op: (spec_alu_field(m) | 0b10000) as u16, imm, out, a },
        ),
{
    bv_im(spec_alu_field(m), imm, out, a);
}

/// Round trip of LOADIMM, for immediates that fit the decoder's 6-bit
/// field: the assembled word decodes to the register-immediate PASS form
/// that loads the same immediate into the same register.  An immediate of
/// 64 or more still assembles (the field itself is 9 bits wide), but its
/// top bits fall outside the 6-bit field the decoder reads, so the round
/// trip holds only below 64.
pub proof fn lemma_round_trip_loadimm(imm: u16, out: u16)
    requires
        imm < 64,
        out < 8,
    ensures
        spec_encode(Mnemonic::LoadImm, seq![imm], seq![out], Seq::empty()) == Some(
            spec_loadimm_word(imm, out),
        ),
        spec_decode(spec_loadimm_word(imm, out)) == Some(
            Instr::Im { op: 0b10100, imm, out, a: 0 },
        ),
{
    bv_loadimm(imm, out);
    assert((4u16 | 0b10000u16) == 0b10100u16) by (bit_vector);
}

} // verus!
