//! The assembler: source lines in, one linear image of 16-bit words out.
//!
//! Each line is blank, a comment (its first token begins with `//`), a
//! section header (its first token begins with '.'), or an instruction:
//! a mnemonic with whitespace-separated operands.  Assembly stops at the
//! first error.  Once every line is consumed the sections are finalized:
//! sequential sections get the end address of the section declared before
//! them, and the section contents are placed at their resolved addresses
//! in one zero-filled linear image.

use vstd::prelude::*;

use crate::encode::{encode_instruction, mnemonic_of, spec_encode, spec_mnemonic, Mnemonic};
use crate::operands::{scan_operands, spec_scan_imms, spec_scan_thins, spec_scan_wides};
use crate::sections::{
    find_section, parse_header, spec_find, spec_header_addr, spec_header_addr_ok,
    spec_header_name, spec_header_shape_ok, spec_views, HeaderResult, Section, SectionV, Start,
};
use crate::tokens::{spec_split_lines, spec_tokens, split_lines, tokenize};

verus! {

/// A fatal assembly error, with the 1-based source line where one applies.
#[derive(Clone, Copy, Debug, PartialEq, Eq, Structural)]
pub enum AsmError {
    /// A line whose first token begins with '.' is no well-formed header.
    BadSectionHeader { line: usize },
    /// A new section's address part holds no digit or exceeds 32 bits.
    BadSectionAddress { line: usize },
    /// An immediate that does not fit its field: 9 bits for LOADIMM,
    /// 6 bits elsewhere.  Values read past 0xFFFF are reported as 0xFFFF.
    ImmediateTooLarge { value: u16, line: usize },
    /// The operands do not fit any pattern of the mnemonic.
    OperandMismatch { line: usize },
    /// The first token of an instruction line is no known mnemonic.
    UnknownMnemonic { line: usize },
    /// Two nonempty sections claim a common address.
    SectionOverlap,
    /// A section reaches past the reserved I/O boundary.
    AddressOutOfRange,
}

/// The first immediate at or above `limit`, if any.
pub open spec fn spec_first_oversized(imms: Seq<u16>, limit: u16) -> Option<u16>
    decreases imms.len(),
{
    if imms.len() == 0 {
        None
    } else if imms[0] >= limit {
        Some(imms[0])
    } else {
        spec_first_oversized(imms.drop_first(), limit)
    }
}

/// A clean prefix does not change where the first oversized immediate is.
proof fn lemma_first_oversized_skip(imms: Seq<u16>, limit: u16, k: int)
    requires
        0 <= k <= imms.len(),
        forall|j: int| 0 <= j < k ==> #[trigger] imms[j] < limit,
    ensures
        spec_first_oversized(imms, limit) == spec_first_oversized(imms.skip(k), limit),
    decreases k,
{
    if k == 0 {
        assert(imms.skip(0) =~= imms);
    } else {
        assert(imms[0] < limit);
        lemma_first_oversized_skip(imms.drop_first(), limit, k - 1);
        assert(imms.drop_first().skip(k - 1) =~= imms.skip(k));
        assert forall|j: int| 0 <= j < k - 1 implies #[trigger] imms.drop_first()[j] < limit by {
            assert(imms.drop_first()[j] == imms[j + 1]);
        }
    }
}

/// Finds the first immediate at or above `limit`.
fn check_widths(imms: &Vec<u16>, limit: u16) -> (r: Option<u16>)
    ensures
        r == spec_first_oversized(imms@, limit),
{
    let mut i: usize = 0;
    while i < imms.len()
        invariant
            i <= imms@.len(),
            forall|j: int| 0 <= j < i ==> #[trigger] imms@[j] < limit,
        decreases imms.len() - i,
    {
        if imms[i] >= limit {
            proof {
                lemma_first_oversized_skip(imms@, limit, i as int);
                assert(imms@.skip(i as int)[0] == imms@[i as int]);
            }
            return Some(imms[i]);
        }
        i += 1;
    }
    proof {
        lemma_first_oversized_skip(imms@, limit, imms@.len() as int);
        assert(imms@.skip(imms@.len() as int).len() == 0);
    }
    None
}

/// The name of the implicit first section.
pub open spec fn spec_start_name() -> Seq<u8> {
    seq![115u8, 116u8, 97u8, 114u8, 116u8]
}

/// The section list every assembly starts from: the `start` section,
/// absolute at address 0, empty.
pub open spec fn spec_initial_sections() -> Seq<SectionV> {
    seq![SectionV { name: spec_start_name(), start: Start::Abs(0u32), machine: Seq::empty() }]
}

/// What one source line does to the assembly state: nothing for a blank
/// or comment line, a section switch or creation for a header, one more
/// word in the current section for an instruction, or the first error.
pub open spec fn spec_line_step(
    sections: Seq<SectionV>,
    cur: int,
    line: Seq<u8>,
    line_no: usize,
) -> Result<(Seq<SectionV>, int), AsmError>
    recommends
        0 <= cur < sections.len(),
{
    let toks = spec_tokens(line);
    if toks.len() == 0 {
        Ok((sections, cur))
    } else if toks[0].len() >= 2 && toks[0][0] == 47 && toks[0][1] == 47 {
        Ok((sections, cur))
    } else if toks[0].len() >= 1 && toks[0][0] == 46 {
        if !spec_header_shape_ok(toks) {
            Err(AsmError::BadSectionHeader { line: line_no })
        } else {
            let name = spec_header_name(toks);
            let f = spec_find(sections, name);
            if f >= 0 {
                Ok((sections, f))
            } else if !spec_header_addr_ok(toks) {
                Err(AsmError::BadSectionAddress { line: line_no })
            } else {
                let st = match spec_header_addr(toks) {
                    Some(a) => Start::Abs(a as u32),
                    None => Start::Rel,
                };
                Ok(
                    (
                        sections.push(SectionV { name, start: st, machine: Seq::empty() }),
                        sections.len() as int,
                    ),
                )
            }
        }
    } else {
        let limit: u16 = if spec_mnemonic(toks[0]) == Some(Mnemonic::LoadImm) {
            512
        } else {
            64
        };
        match spec_first_oversized(spec_scan_imms(toks), limit) {
            Some(v) => Err(AsmError::ImmediateTooLarge { value: v, line: line_no }),
            None => match spec_mnemonic(toks[0]) {
                None => Err(AsmError::UnknownMnemonic { line: line_no }),
                Some(m) => match spec_encode(
                    m,
                    spec_scan_imms(toks),
                    spec_scan_thins(toks),
                    spec_scan_wides(toks),
                ) {
                    None => Err(AsmError::OperandMismatch { line: line_no }),
                    Some(w) => Ok(
                        (
                            sections.update(
                                cur,
                                SectionV {
                                    name: sections[cur].name,
                                    start: sections[cur].start,
                                    machine: sections[cur].machine.push(w),
                                },
                            ),
                            cur,
                        ),
                    ),
                },
            },
        }
    }
}

/// The assembly state after all lines, or the first error.  Line numbers
/// are 1-based.
pub open spec fn spec_asm_lines(lines: Seq<Seq<u8>>) -> Result<(Seq<SectionV>, int), AsmError>
    decreases lines.len(),
{
    if lines.len() == 0 {
        Ok((spec_initial_sections(), 0))
    } else {
        match spec_asm_lines(lines.drop_last()) {
            Err(e) => Err(e),
            Ok(st) => spec_line_step(st.0, st.1, lines.last(), lines.len() as usize),
        }
    }
}

/// An error in a prefix of the lines is the error of the whole source.
proof fn lemma_asm_lines_err(lines: Seq<Seq<u8>>, k: int)
    requires
        0 <= k <= lines.len(),
        spec_asm_lines(lines.take(k)) is Err,
    ensures
        spec_asm_lines(lines) == spec_asm_lines(lines.take(k)),
    decreases lines.len() - k,
{
    if k == lines.len() {
        assert(lines.take(k) =~= lines);
    } else {
        assert(lines.take(k + 1).drop_last() =~= lines.take(k));
        lemma_asm_lines_err(lines, k + 1);
    }
}

/// Applies one source line to the assembly state.
fn asm_line(sections: &mut Vec<Section>, cur: &mut usize, line: &Vec<u8>, line_no: usize) -> (r:
    Result<(), AsmError>)
    requires
        *old(cur) < old(sections)@.len(),
    ensures
        match spec_line_step(spec_views(old(sections)@), *old(cur) as int, line@, line_no) {
            Ok(st) => r is Ok && spec_views(final(sections)@) == st.0 && *final(cur) as int == st.1
                && *final(cur) < final(sections)@.len(),
            Err(e) => r == Err::<(), AsmError>(e) && final(sections)@ == old(sections)@
                && *final(cur) == *old(cur),
        },
{
    let ghost sv0 = spec_views(sections@);
    let ghost cur0 = *cur as int;
    let toks = tokenize(line);
    let ghost tv = spec_tokens(line@);
    proof {
        assert(toks.deep_view() == tv);
        assert(forall|k: int| 0 <= k < tv.len() ==> tv[k] == (#[trigger] toks@[k])@);
    }
    if toks.len() == 0 {
        return Ok(());
    }
    let t0 = &toks[0];
    proof {
        assert(t0@ == tv[0]);
    }
    if t0.len() >= 2 && t0[0] == 47 && t0[1] == 47 {
        return Ok(());
    }
    if t0.len() >= 1 && t0[0] == 46 {
        match parse_header(&toks) {
            HeaderResult::BadShape => Err(AsmError::BadSectionHeader { line: line_no }),
            HeaderResult::BadAddress { name } => {
                match find_section(sections, &name) {
                    Some(idx) => {
                        *cur = idx;
                        Ok(())
                    },
                    None => Err(AsmError::BadSectionAddress { line: line_no }),
                }
            },
            HeaderResult::Parsed { name, addr } => {
                match find_section(sections, &name) {
                    Some(idx) => {
                        *cur = idx;
                        Ok(())
                    },
                    None => {
                        let st = match addr {
                            Some(a) => Start::Abs(a),
                            None => Start::Rel,
                        };
                        let newlen = sections.len();
                        sections.push(Section { name, start: st, machine: Vec::new() });
                        *cur = newlen;
                        proof {
                            let svnew = spec_views(sections@);
                            let pushed = (SectionV {
                                name: spec_header_name(tv),
                                start: st,
                                machine: Seq::empty(),
                            });
                            assert(svnew =~= sv0.push(pushed));
                        }
                        Ok(())
                    },
                }
            },
        }
    } else {
        let m_opt = mnemonic_of(t0);
        let (imms, thins, wides) = scan_operands(&toks);
        let limit: u16 = match m_opt {
            Some(Mnemonic::LoadImm) => 512,
            _ => 64,
        };
        match check_widths(&imms, limit) {
            Some(v) => Err(AsmError::ImmediateTooLarge { value: v, line: line_no }),
            None => {
                match m_opt {
                    None => Err(AsmError::UnknownMnemonic { line: line_no }),
                    Some(m) => {
                        match encode_instruction(m, &imms, &thins, &wides) {
                            None => Err(AsmError::OperandMismatch { line: line_no }),
                            Some(w) => {
                                let c = *cur;
                                let sec = &mut sections[c];
                                sec.machine.push(w);
                                proof {
                                    let svnew = spec_views(sections@);
                                    let updated = (SectionV {
                                        name: sv0[cur0].name,
                                        start: sv0[cur0].start,
                                        machine: sv0[cur0].machine.push(w),
                                    });
                                    assert(svnew =~= sv0.update(cur0, updated));
                                }
                                Ok(())
                            },
                        }
                    },
                }
            },
        }
    }
}

/// Assembles every source line, producing the final section list and the
/// index of the section that was current at the end, or the first error.
pub fn assemble_lines(lines: &Vec<Vec<u8>>) -> (r: Result<(Vec<Section>, usize), AsmError>)
    ensures
        match spec_asm_lines(lines.deep_view()) {
            Ok(st) => r matches Ok(p) && spec_views(p.0@) == st.0 && p.1 as int == st.1 && p.1
                < p.0@.len(),
            Err(e) => r == Err::<(Vec<Section>, usize), AsmError>(e),
        },
{
    let ghost dv = lines.deep_view();
    let mut name: Vec<u8> = Vec::new();
    name.push(115);
    name.push(116);
    name.push(97);
    name.push(114);
    name.push(116);
    proof {
        assert(name@ =~= spec_start_name());
    }
    let mut sections: Vec<Section> = Vec::new();
    sections.push(Section { name, start: Start::Abs(0), machine: Vec::new() });
    let mut cur: usize = 0;
    proof {
        assert(spec_views(sections@) =~= spec_initial_sections());
        assert(dv.take(0) =~= Seq::<Seq<u8>>::empty());
    }
    let mut i: usize = 0;
    while i < lines.len()
        invariant
            i <= lines@.len(),
            dv == lines.deep_view(),
            dv.len() == lines@.len(),
            forall|k: int| 0 <= k < dv.len() ==> dv[k] == (#[trigger] lines@[k])@,
            cur < sections@.len(),
            spec_asm_lines(dv.take(i as int)) == Ok::<(Seq<SectionV>, int), AsmError>(
                (spec_views(sections@), cur as int),
            ),
        decreases lines.len() - i,
    {
        proof {
            assert(dv.take(i + 1).drop_last() =~= dv.take(i as int));
            assert(dv.take(i + 1).last() == dv[i as int]);
            assert(dv[i as int] == lines@[i as int]@);
            assert(dv.take(i + 1).len() == i + 1);
        }
        match asm_line(&mut sections, &mut cur, &lines[i], i + 1) {
            Ok(_) => {},
            Err(e) => {
                proof {
                    lemma_asm_lines_err(dv, i + 1);
                }
                return Err(e);
            },
        }
        i += 1;
    }
    proof {
        assert(dv.take(lines@.len() as int) =~= dv);
    }
    Ok((sections, cur))
}

/// The resolved base address of section `i`: its own absolute address, or
/// the end address of the section declared immediately before it.
pub open spec fn spec_base(s: Seq<SectionV>, i: int) -> int
    recommends
        0 <= i < s.len(),
    decreases i,
{
    if i <= 0 {
        match s[0].start {
            Start::Abs(a) => a as int,
            Start::Rel => 0,
        }
    } else {
        match s[i].start {
            Start::Abs(a) => a as int,
            Start::Rel => spec_base(s, i - 1) + s[i - 1].machine.len(),
        }
    }
}

/// The address one past the last word of section `i`.
pub open spec fn spec_end(s: Seq<SectionV>, i: int) -> int
    recommends
        0 <= i < s.len(),
{
    spec_base(s, i) + s[i].machine.len()
}

/// Two sections claim no common address (empty sections claim none).
pub open spec fn spec_disjoint(s: Seq<SectionV>, i: int, j: int) -> bool {
    ||| s[i].machine.len() == 0
    ||| s[j].machine.len() == 0
    ||| spec_end(s, i) <= spec_base(s, j)
    ||| spec_end(s, j) <= spec_base(s, i)
}

/// No two sections claim a common address.
pub open spec fn spec_no_overlap(s: Seq<SectionV>) -> bool {
    forall|i: int, j: int| 0 <= i < j < s.len() ==> spec_disjoint(s, i, j)
}

/// The length of the final image: the largest section end address.
pub open spec fn spec_image_len_upto(s: Seq<SectionV>, n: int) -> int
    decreases n,
{
    if n <= 0 {
        0
    } else {
        let p = spec_image_len_upto(s, n - 1);
        let e = spec_end(s, n - 1);
        if e > p {
            e
        } else {
            p
        }
    }
}

/// The image is at least as long as every section's end.
proof fn lemma_image_len_ge(s: Seq<SectionV>, i: int, n: int)
    requires
        0 <= i < n,
    ensures
        spec_image_len_upto(s, n) >= spec_end(s, i),
    decreases n,
{
    if i < n - 1 {
        lemma_image_len_ge(s, i, n - 1);
    }
}

/// Address `a` lies inside some section's resolved range.
pub open spec fn spec_covered(s: Seq<SectionV>, a: int) -> bool {
    exists|i: int| 0 <= i < s.len() && #[trigger] spec_base(s, i) <= a < spec_end(s, i)
}

/// Resolves every section's base address, in declaration order.  Fails
/// when a section would reach past the reserved I/O boundary.
fn resolve_bases(sections: &Vec<Section>) -> (r: Result<Vec<u32>, AsmError>)
    requires
        sections@.len() >= 1,
    ensures
        match r {
            Ok(bases) => spec_bases_ok(sections@, bases@),
            Err(e) => e == AsmError::AddressOutOfRange && exists|i: int|
                0 <= i < sections@.len() && spec_end(spec_views(sections@), i) > 0xF000_0000,
        },
{
    let ghost sv = spec_views(sections@);
    let mut bases: Vec<u32> = Vec::new();
    let mut prev_end: u64 = 0;
    let mut i: usize = 0;
    while i < sections.len()
        invariant
            i <= sections@.len(),
            sv == spec_views(sections@),
            sv.len() == sections@.len(),
            forall|k: int| 0 <= k < sv.len() ==> #[trigger] sv[k] == sections@[k]@,
            bases@.len() == i,
            forall|j: int| 0 <= j < i ==> (#[trigger] bases@[j]) == spec_base(sv, j),
            forall|j: int| 0 <= j < i ==> #[trigger] spec_end(sv, j) <= 0xF000_0000,
            i > 0 ==> prev_end == spec_end(sv, i - 1),
            i == 0 ==> prev_end == 0,
            prev_end <= 0xF000_0000,
        decreases sections.len() - i,
    {
        let sec = &sections[i];
        let len64: u64 = sec.machine.len() as u64;
        let base64: u64 = match sec.start {
            Start::Abs(a) => a as u64,
            Start::Rel => if i == 0 {
                0u64
            } else {
                prev_end
            },
        };
        proof {
            assert(sv[i as int] == sections@[i as int]@);
            assert(base64 == spec_base(sv, i as int));
        }
        if base64 > 0xF000_0000 || len64 > 0xF000_0000 || base64 + len64 > 0xF000_0000 {
            proof {
                assert(spec_end(sv, i as int) > 0xF000_0000);
            }
            return Err(AsmError::AddressOutOfRange);
        }
        proof {
            assert(spec_end(sv, i as int) == base64 + len64);
        }
        let ghost ob = bases@;
        bases.push(base64 as u32);
        prev_end = base64 + len64;
        proof {
            assert forall|j: int| 0 <= j < i implies (#[trigger] bases@[j]) == spec_base(sv, j) by {
                assert(bases@[j] == ob[j]);
            }
            assert(bases@[i as int] == spec_base(sv, i as int));
            assert(spec_end(sv, i as int) <= 0xF000_0000);
        }
        i += 1;
    }
    proof {
        assert forall|j: int| 0 <= j < sections@.len() implies (#[trigger] bases@[j]) == spec_base(
            spec_views(sections@),
            j,
        ) by {
            assert(bases@[j] == spec_base(sv, j));
        }
        assert forall|j: int| 0 <= j < sections@.len() implies #[trigger] spec_end(
            spec_views(sections@),
            j,
        ) <= 0xF000_0000 by {
            assert(spec_end(sv, j) <= 0xF000_0000);
        }
    }
    Ok(bases)
}

/// The base addresses in `bases` are the resolved bases of `sections`,
/// every section end lying at or below the reserved I/O boundary.
pub open spec fn spec_bases_ok(sections: Seq<Section>, bases: Seq<u32>) -> bool {
    &&& bases.len() == sections.len()
    &&& forall|i: int|
        0 <= i < sections.len() ==> (#[trigger] bases[i]) == spec_base(spec_views(sections), i)
    &&& forall|i: int|
        0 <= i < sections.len() ==> #[trigger] spec_end(spec_views(sections), i) <= 0xF000_0000
}

/// Checks that no two nonempty sections claim a common address.
fn check_overlap(sections: &Vec<Section>, bases: &Vec<u32>) -> (r: bool)
    requires
        spec_bases_ok(sections@, bases@),
    ensures
        r == spec_no_overlap(spec_views(sections@)),
{
    let ghost sv = spec_views(sections@);
    let n = sections.len();
    let mut i: usize = 0;
    while i < n
        invariant
            i <= n,
            n == sections@.len(),
            sv == spec_views(sections@),
            spec_bases_ok(sections@, bases@),
            forall|i2: int, j2: int| 0 <= i2 < j2 < sv.len() && i2 < i ==> spec_disjoint(
                sv,
                i2,
                j2,
            ),
        decreases n - i,
    {
        proof {
            assert(sv[i as int] == sections@[i as int]@);
            assert(bases@[i as int] == spec_base(sv, i as int));
            assert(spec_end(sv, i as int) <= 0xF000_0000);
        }
        let len_i: u64 = sections[i].machine.len() as u64;
        let ei: u64 = bases[i] as u64 + len_i;
        proof {
            assert(ei == spec_end(sv, i as int));
        }
        let mut j: usize = i + 1;
        while j < n
            invariant
                i < j <= n,
                n == sections@.len(),
                sv == spec_views(sections@),
                spec_bases_ok(sections@, bases@),
                len_i == sv[i as int].machine.len(),
                ei == spec_end(sv, i as int),
                forall|j2: int| i < j2 < j ==> spec_disjoint(sv, i as int, j2),
            decreases n - j,
        {
            proof {
                assert(sv[j as int] == sections@[j as int]@);
                assert(bases@[j as int] == spec_base(sv, j as int));
                assert(spec_end(sv, j as int) <= 0xF000_0000);
            }
            let len_j: u64 = sections[j].machine.len() as u64;
            let ej: u64 = bases[j] as u64 + len_j;
            proof {
                assert(ej == spec_end(sv, j as int));
                assert(bases@[i as int] == spec_base(sv, i as int));
            }
            let disjoint = len_i == 0 || len_j == 0 || ei <= bases[j] as u64 || ej <= bases[i]
                as u64;
            if !disjoint {
                proof {
                    assert(!spec_disjoint(sv, i as int, j as int));
                    assert(!spec_no_overlap(sv));
                }
                return false;
            }
            proof {
                assert(spec_disjoint(sv, i as int, j as int));
            }
            j += 1;
        }
        i += 1;
    }
    true
}

/// Places every section's words at its resolved base address in one
/// zero-filled linear image whose length is the largest section end.
fn build_image(sections: &Vec<Section>, bases: &Vec<u32>) -> (r: Vec<u16>)
    requires
        spec_bases_ok(sections@, bases@),
        spec_no_overlap(spec_views(sections@)),
    ensures
        r@.len() == spec_image_len_upto(spec_views(sections@), sections@.len() as int),
        forall|i: int, k: int|
            0 <= i < sections@.len() && 0 <= k < spec_views(sections@)[i].machine.len()
                ==> #[trigger] r@[spec_base(spec_views(sections@), i) + k] == spec_views(
                sections@,
            )[i].machine[k],
        forall|a: int|
            0 <= a < r@.len() && !spec_covered(spec_views(sections@), a) ==> #[trigger] r@[a] == 0,
{
    let ghost sv = spec_views(sections@);
    let n = sections.len();
    let mut total: u64 = 0;
    let mut i: usize = 0;
    while i < n
        invariant
            i <= n,
            n == sections@.len(),
            sv == spec_views(sections@),
            spec_bases_ok(sections@, bases@),
            total == spec_image_len_upto(sv, i as int),
            total <= 0xF000_0000,
        decreases n - i,
    {
        proof {
            assert(sv[i as int] == sections@[i as int]@);
            assert(bases@[i as int] == spec_base(sv, i as int));
            assert(spec_end(sv, i as int) <= 0xF000_0000);
        }
        let len_i: u64 = sections[i].machine.len() as u64;
        let ei: u64 = bases[i] as u64 + len_i;
        proof {
            assert(ei == spec_end(sv, i as int));
        }
        if ei > total {
            total = ei;
        }
        i += 1;
    }
    let total_usize: usize = total as usize;
    let mut image: Vec<u16> = Vec::new();
    while image.len() < total_usize
        invariant
            image@.len() <= total_usize,
            total_usize == total,
            forall|a: int| 0 <= a < image@.len() ==> #[trigger] image@[a] == 0,
        decreases total_usize - image.len(),
    {
        image.push(0);
    }
    let mut i: usize = 0;
    while i < n
        invariant
            i <= n,
            n == sections@.len(),
            sv == spec_views(sections@),
            spec_bases_ok(sections@, bases@),
            spec_no_overlap(sv),
            image@.len() == total,
            total <= 0xF000_0000,
            total == spec_image_len_upto(sv, n as int),
            forall|i2: int, k2: int|
                0 <= i2 < i && 0 <= k2 < sv[i2].machine.len() ==> #[trigger] image@[spec_base(
                    sv,
                    i2,
                ) + k2] == sv[i2].machine[k2],
            forall|a: int| 0 <= a < image@.len() && !spec_covered(sv, a) ==> #[trigger] image@[a]
                == 0,
        decreases n - i,
    {
        proof {
            lemma_image_len_ge(sv, i as int, n as int);
            assert(sv[i as int] == sections@[i as int]@);
            assert(bases@[i as int] == spec_base(sv, i as int));
        }
        let sec = &sections[i];
        let base: usize = bases[i] as usize;
        let m = sec.machine.len();
        let mut k: usize = 0;
        while k < m
            invariant
                0 <= i < n,
                k <= m,
                n == sections@.len(),
                sv == spec_views(sections@),
                spec_bases_ok(sections@, bases@),
                spec_no_overlap(sv),
                sec == sections@[i as int],
                sv[i as int] == sections@[i as int]@,
                m == sv[i as int].machine.len(),
                base == spec_base(sv, i as int),
                spec_end(sv, i as int) <= total,
                image@.len() == total,
                total <= 0xF000_0000,
                total == spec_image_len_upto(sv, n as int),
                forall|i2: int, k2: int|
                    0 <= i2 < i && 0 <= k2 < sv[i2].machine.len() ==> #[trigger] image@[spec_base(
                        sv,
                        i2,
                    ) + k2] == sv[i2].machine[k2],
                forall|k2: int| 0 <= k2 < k ==> #[trigger] image@[base + k2] == sv[
                    i as int
                ].machine[k2],
                forall|a: int| 0 <= a < image@.len() && !spec_covered(sv, a)
                    ==> #[trigger] image@[a] == 0,
            decreases m - k,
        {
            proof {
                assert(base + k < spec_end(sv, i as int));
            }
            let idx: usize = base + k;
            image[idx] = sec.machine[k];
            proof {
                assert(spec_base(sv, i as int) <= idx < spec_end(sv, i as int));
                assert(spec_covered(sv, idx as int));
                assert forall|i2: int, k2: int|
                    0 <= i2 < i && 0 <= k2 < sv[i2].machine.len() implies #[trigger] image@[
                spec_base(sv, i2) + k2] == sv[i2].machine[k2] by {
                    lemma_image_len_ge(sv, i2, n as int);
                    assert(bases@[i2] == spec_base(sv, i2));
                    assert(spec_base(sv, i2) <= spec_base(sv, i2) + k2 < spec_end(sv, i2));
                    assert(0 <= spec_base(sv, i2) + k2 < image@.len());
                    if spec_base(sv, i2) + k2 == idx {
                        assert(spec_disjoint(sv, i2, i as int));
                        assert(false);
                    }
                }
            }
            k += 1;
        }
        i += 1;
    }
    image
}

/// Assembles a whole source text into its linear memory image: the first
/// assembly error if any line has one, then an address-range or overlap
/// error if section placement is impossible, and otherwise the image,
/// with every section's words at its resolved base address and zero
/// everywhere no section reaches.
pub fn assemble(src: &Vec<u8>) -> (r: Result<Vec<u16>, AsmError>)
    ensures
        match spec_asm_lines(spec_split_lines(src@)) {
            Err(e) => r == Err::<Vec<u16>, AsmError>(e),
            Ok(st) => {
                if exists|i: int| 0 <= i < st.0.len() && spec_end(st.0, i) > 0xF000_0000 {
                    r == Err::<Vec<u16>, AsmError>(AsmError::AddressOutOfRange)
                } else if !spec_no_overlap(st.0) {
                    r == Err::<Vec<u16>, AsmError>(AsmError::SectionOverlap)
                } else {
                    r matches Ok(img) && img@.len() == spec_image_len_upto(
                        st.0,
                        st.0.len() as int,
                    ) && (forall|i: int, k: int|
                        0 <= i < st.0.len() && 0 <= k < st.0[i].machine.len()
                            ==> #[trigger] img@[spec_base(st.0, i) + k] == st.0[i].machine[k]) && (
                    forall|a: int|
                        0 <= a < img@.len() && !spec_covered(st.0, a) ==> #[trigger] img@[a] == 0)
                }
            },
        },
{
    let lines = split_lines(src);
    match assemble_lines(&lines) {
        Err(e) => Err(e),
        Ok((sections, _cur)) => {
            match resolve_bases(&sections) {
                Err(e) => Err(e),
                Ok(bases) => {
                    if !check_overlap(&sections, &bases) {
                        Err(AsmError::SectionOverlap)
                    } else {
                        Ok(build_image(&sections, &bases))
                    }
                },
            }
        },
    }
}

} // verus!
