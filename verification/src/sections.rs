//! Sections of an assembly source: a named, independently addressed run
//! of assembled words.  A section starts either at a fixed address given
//! in its header (absolute) or immediately after the section declared
//! before it (sequential).  The implicit `start` section always exists,
//! absolute at address 0, created before any user-declared section.

use vstd::prelude::*;

verus! {

/// A section's start-address policy.
#[derive(Clone, Copy, Debug, PartialEq, Eq, Structural)]
pub enum Start {
    /// A fixed word address given at declaration.
    Abs(u32),
    /// Immediately after the previously declared section.
    Rel,
}

/// One section: its name, start policy, and assembled words.
pub struct Section {
    pub name: Vec<u8>,
    pub start: Start,
    pub machine: Vec<u16>,
}

/// The mathematical image of a section.
pub struct SectionV {
    pub name: Seq<u8>,
    pub start: Start,
    pub machine: Seq<u16>,
}

impl View for Section {
    type V = SectionV;

    open spec fn view(&self) -> SectionV {
        SectionV { name: self.name@, start: self.start, machine: self.machine@ }
    }
}

impl Section {
    /// The number of assembled words the section holds.
    pub fn len(&self) -> (r: u32)
        requires
            self.machine@.len() <= 0xFFFF_FFFF,
        ensures
            r == self.machine@.len(),
    {
        self.machine.len() as u32
    }
}

/// Byte-for-byte equality of two byte vectors.
pub fn bytes_eq(a: &Vec<u8>, b: &Vec<u8>) -> (r: bool)
    ensures
        r == (a@ == b@),
{
    if a.len() != b.len() {
        return false;
    }
    let mut i: usize = 0;
    while i < a.len()
        invariant
            i <= a.len(),
            a@.len() == b@.len(),
            forall|k: int| 0 <= k < i ==> a@[k] == b@[k],
        decreases a.len() - i,
    {
        if a[i] != b[i] {
            return false;
        }
        i += 1;
    }
    proof {
        assert(a@ =~= b@);
    }
    true
}

/// Copies the bytes `t[from..to]` into a fresh vector.
pub fn copy_bytes(t: &Vec<u8>, from: usize, to: usize) -> (r: Vec<u8>)
    requires
        from <= to <= t@.len(),
    ensures
        r@ == t@.subrange(from as int, to as int),
{
    let mut r: Vec<u8> = Vec::new();
    let mut i: usize = from;
    while i < to
        invariant
            from <= i <= to <= t@.len(),
            r@ == t@.subrange(from as int, i as int),
        decreases to - i,
    {
        r.push(t[i]);
        proof {
            assert(t@.subrange(from as int, i as int).push(t@[i as int]) =~= t@.subrange(
                from as int,
                i + 1,
            ));
        }
        i += 1;
    }
    r
}

/// The index of the first section with the given name, or -1.
pub open spec fn spec_find(sections: Seq<SectionV>, name: Seq<u8>) -> int
    decreases sections.len(),
{
    if sections.len() == 0 {
        -1
    } else if sections[0].name == name {
        0
    } else {
        let r = spec_find(sections.drop_first(), name);
        if r < 0 {
            -1
        } else {
            r + 1
        }
    }
}

/// `spec_find` names the first match: a match at `i` with none before it
/// pins the result to `i`, and no match at all pins it to -1.
pub proof fn lemma_find_characterization(sections: Seq<SectionV>, name: Seq<u8>, i: int)
    requires
        0 <= i <= sections.len(),
        forall|j: int| 0 <= j < i ==> (#[trigger] sections[j]).name != name,
        i < sections.len() ==> sections[i].name == name,
    ensures
        i < sections.len() ==> spec_find(sections, name) == i,
        i == sections.len() ==> spec_find(sections, name) == -1,
    decreases i,
{
    if sections.len() > 0 {
        if i == 0 {
        } else {
            assert(sections[0].name != name);
            lemma_find_characterization(sections.drop_first(), name, i - 1);
            assert forall|j: int| 0 <= j < i - 1 implies (#[trigger] sections.drop_first()[j]).name
                != name by {
                assert(sections.drop_first()[j] == sections[j + 1]);
            }
            assert(sections.drop_first().len() == sections.len() - 1);
        }
    }
}

/// The views of a section list.
pub open spec fn spec_views(sections: Seq<Section>) -> Seq<SectionV> {
    sections.map_values(|s: Section| s@)
}

/// Finds the first section with the given name.
pub fn find_section(sections: &Vec<Section>, name: &Vec<u8>) -> (r: Option<usize>)
    ensures
        match r {
            Some(i) => i < sections@.len() && spec_find(spec_views(sections@), name@) == i,
            None => spec_find(spec_views(sections@), name@) == -1,
        },
{
    let ghost sv = spec_views(sections@);
    let mut i: usize = 0;
    while i < sections.len()
        invariant
            i <= sections@.len(),
            sv == spec_views(sections@),
            sv.len() == sections@.len(),
            forall|k: int| 0 <= k < sv.len() ==> (#[trigger] sv[k]).name == sections@[k].name@,
            forall|j: int| 0 <= j < i ==> (#[trigger] sv[j]).name != name@,
        decreases sections.len() - i,
    {
        if bytes_eq(&sections[i].name, name) {
            proof {
                lemma_find_characterization(sv, name@, i as int);
            }
            return Some(i);
        }
        i += 1;
    }
    proof {
        lemma_find_characterization(sv, name@, sections@.len() as int);
    }
    None
}

/// A word character, as in a section name: a letter, digit or underscore.
pub open spec fn spec_is_word_char(c: u8) -> bool {
    (48 <= c <= 57) || (65 <= c <= 90) || (97 <= c <= 122) || c == 95
}

/// All bytes of `s` are word characters.
pub open spec fn spec_all_word(s: Seq<u8>) -> bool {
    forall|k: int| 0 <= k < s.len() ==> spec_is_word_char(#[trigger] s[k])
}

/// A hexadecimal digit or an underscore separator.
pub open spec fn spec_is_hexu_char(c: u8) -> bool {
    (48 <= c <= 57) || (65 <= c <= 70) || (97 <= c <= 102) || c == 95
}

/// All bytes of `s` are hexadecimal digits or underscores.
pub open spec fn spec_all_hexu(s: Seq<u8>) -> bool {
    forall|k: int| 0 <= k < s.len() ==> spec_is_hexu_char(#[trigger] s[k])
}

/// `s` holds at least one byte that is not an underscore.
pub open spec fn spec_has_hex_digit(s: Seq<u8>) -> bool {
    exists|k: int| 0 <= k < s.len() && #[trigger] s[k] != 95
}

/// The value of one hexadecimal digit byte.
pub open spec fn spec_hex_digit(c: u8) -> int {
    if 48 <= c <= 57 {
        c - 48
    } else if 65 <= c <= 70 {
        c - 55
    } else {
        c - 87
    }
}

/// The value of a hexadecimal string, underscores skipped.
pub open spec fn spec_hex_value(s: Seq<u8>) -> int
    decreases s.len(),
{
    if s.len() == 0 {
        0
    } else if s.last() == 95 {
        spec_hex_value(s.drop_last())
    } else {
        spec_hex_value(s.drop_last()) * 16 + spec_hex_digit(s.last())
    }
}

/// Hexadecimal values are never negative.
pub proof fn lemma_hex_value_nonneg(s: Seq<u8>)
    requires
        spec_all_hexu(s),
    ensures
        spec_hex_value(s) >= 0,
    decreases s.len(),
{
    if s.len() > 0 {
        assert(spec_all_hexu(s.drop_last()));
        lemma_hex_value_nonneg(s.drop_last());
    }
}

/// The first token of a section header in its one-token form:
/// '.', a nonempty word-character name, then ':'.
pub open spec fn spec_hdr_colon_form(t: Seq<u8>) -> bool {
    t.len() >= 3 && t[0] == 46 && t.last() == 58 && spec_all_word(t.subrange(1, t.len() - 1))
}

/// The first token of a section header in its two-token form:
/// '.' then a nonempty word-character name.
pub open spec fn spec_hdr_plain_form(t: Seq<u8>) -> bool {
    t.len() >= 2 && t[0] == 46 && spec_all_word(t.skip(1))
}

/// The second token of a two-token section header: "0x", a nonempty run
/// of hexadecimal digits and underscores, then ':'.
pub open spec fn spec_hdr_hex_form(t: Seq<u8>) -> bool {
    t.len() >= 4 && t[0] == 48 && t[1] == 120 && t.last() == 58 && spec_all_hexu(
        t.subrange(2, t.len() - 1),
    )
}

/// The tokens form a well-shaped section header.  Tokens after the header
/// itself are ignored.
pub open spec fn spec_header_shape_ok(toks: Seq<Seq<u8>>) -> bool {
    ||| (toks.len() >= 1 && spec_hdr_colon_form(toks[0]))
    ||| (toks.len() >= 2 && spec_hdr_plain_form(toks[0]) && spec_hdr_hex_form(toks[1]))
}

/// The name a well-shaped header declares.
pub open spec fn spec_header_name(toks: Seq<Seq<u8>>) -> Seq<u8>
    recommends
        spec_header_shape_ok(toks),
{
    if spec_hdr_colon_form(toks[0]) {
        toks[0].subrange(1, toks[0].len() - 1)
    } else {
        toks[0].skip(1)
    }
}

/// The absolute address a well-shaped header gives, or `None` for a
/// sequential section.
pub open spec fn spec_header_addr(toks: Seq<Seq<u8>>) -> Option<int>
    recommends
        spec_header_shape_ok(toks),
{
    if spec_hdr_colon_form(toks[0]) {
        None
    } else {
        Some(spec_hex_value(toks[1].subrange(2, toks[1].len() - 1)))
    }
}

/// A well-shaped header's address part is usable: absent, or holding at
/// least one digit and a value that fits 32 bits.
pub open spec fn spec_header_addr_ok(toks: Seq<Seq<u8>>) -> bool
    recommends
        spec_header_shape_ok(toks),
{
    if spec_hdr_colon_form(toks[0]) {
        true
    } else {
        spec_has_hex_digit(toks[1].subrange(2, toks[1].len() - 1)) && spec_hex_value(
            toks[1].subrange(2, toks[1].len() - 1),
        ) <= 0xFFFF_FFFF
    }
}

/// How parsing a section header can go.
pub enum HeaderResult {
    /// A well-shaped header: the declared name, and its absolute address
    /// if it gives one.
    Parsed { name: Vec<u8>, addr: Option<u32> },
    /// The tokens do not form a header.
    BadShape,
    /// The header's address part holds no digit or does not fit 32 bits.
    /// The declared name still matters: a section of that name may already
    /// exist, in which case the address part is ignored.
    BadAddress { name: Vec<u8> },
}

/// Checks that `t[from..to]` is all word characters.
fn check_all_word(t: &Vec<u8>, from: usize, to: usize) -> (r: bool)
    requires
        from <= to <= t@.len(),
    ensures
        r == spec_all_word(t@.subrange(from as int, to as int)),
{
    let ghost d = t@.subrange(from as int, to as int);
    let mut i: usize = from;
    while i < to
        invariant
            from <= i <= to <= t@.len(),
            d == t@.subrange(from as int, to as int),
            forall|k: int| 0 <= k < d.len() ==> d[k] == t@[from + k],
            forall|k: int| from <= k < i ==> spec_is_word_char(#[trigger] t@[k]),
        decreases to - i,
    {
        let c = t[i];
        if !((48 <= c && c <= 57) || (65 <= c && c <= 90) || (97 <= c && c <= 122) || c == 95) {
            proof {
                assert(d[i - from] == t@[i as int]);
            }
            return false;
        }
        i += 1;
    }
    proof {
        assert forall|k: int| 0 <= k < d.len() implies spec_is_word_char(d[k]) by {
            assert(d[k] == t@[from + k]);
        }
    }
    true
}

/// Checks that `t[from..to]` is all hexadecimal digits or underscores.
fn check_all_hexu(t: &Vec<u8>, from: usize, to: usize) -> (r: bool)
    requires
        from <= to <= t@.len(),
    ensures
        r == spec_all_hexu(t@.subrange(from as int, to as int)),
{
    let ghost d = t@.subrange(from as int, to as int);
    let mut i: usize = from;
    while i < to
        invariant
            from <= i <= to <= t@.len(),
            d == t@.subrange(from as int, to as int),
            forall|k: int| 0 <= k < d.len() ==> d[k] == t@[from + k],
            forall|k: int| from <= k < i ==> spec_is_hexu_char(#[trigger] t@[k]),
        decreases to - i,
    {
        let c = t[i];
        if !((48 <= c && c <= 57) || (65 <= c && c <= 70) || (97 <= c && c <= 102) || c == 95) {
            proof {
                assert(d[i - from] == t@[i as int]);
            }
            return false;
        }
        i += 1;
    }
    proof {
        assert forall|k: int| 0 <= k < d.len() implies spec_is_hexu_char(d[k]) by {
            assert(d[k] == t@[from + k]);
        }
    }
    true
}

/// Extending a prefix by one byte sees a digit exactly when the prefix
/// already did or the new byte is no underscore.
proof fn lemma_has_digit_step(d: Seq<u8>, n: int)
    requires
        0 <= n < d.len(),
    ensures
        spec_has_hex_digit(d.take(n + 1)) == (spec_has_hex_digit(d.take(n)) || d[n] != 95),
{
    if spec_has_hex_digit(d.take(n)) {
        let k = choose|k: int| 0 <= k < d.take(n).len() && #[trigger] d.take(n)[k] != 95;
        assert(d.take(n + 1)[k] != 95);
    }
    if d[n] != 95 {
        assert(d.take(n + 1)[n] != 95);
    }
    if spec_has_hex_digit(d.take(n + 1)) && d[n] == 95 {
        let k = choose|k: int| 0 <= k < d.take(n + 1).len() && #[trigger] d.take(n + 1)[k] != 95;
        if k < n {
            assert(d.take(n)[k] != 95);
        } else {
            assert(d.take(n + 1)[k] == d[n]);
        }
    }
}

/// Reads the hexadecimal digits of `t[from..to]`, skipping underscores;
/// reports whether any digit was seen, and the value capped one past the
/// 32-bit range (any value of 2^32 or more reads as 2^32).
fn parse_hex_capped(t: &Vec<u8>, from: usize, to: usize) -> (r: (bool, u64))
    requires
        from <= to <= t@.len(),
        spec_all_hexu(t@.subrange(from as int, to as int)),
    ensures
        r.0 == spec_has_hex_digit(t@.subrange(from as int, to as int)),
        spec_hex_value(t@.subrange(from as int, to as int)) <= 0xFFFF_FFFF ==> r.1
            == spec_hex_value(t@.subrange(from as int, to as int)),
        spec_hex_value(t@.subrange(from as int, to as int)) > 0xFFFF_FFFF ==> r.1
            == 0x1_0000_0000u64,
{
    let ghost d = t@.subrange(from as int, to as int);
    proof {
        lemma_hex_value_nonneg(d);
        assert(d.take(0) =~= Seq::<u8>::empty());
    }
    let mut acc: u64 = 0;
    let mut seen: bool = false;
    let mut i: usize = from;
    while i < to
        invariant
            from <= i <= to <= t@.len(),
            spec_all_hexu(d),
            d == t@.subrange(from as int, to as int),
            forall|k: int| 0 <= k < d.len() ==> d[k] == t@[from + k],
            seen == spec_has_hex_digit(d.take(i - from)),
            spec_hex_value(d.take(i - from)) <= 0xFFFF_FFFF ==> acc == spec_hex_value(
                d.take(i - from),
            ),
            spec_hex_value(d.take(i - from)) > 0xFFFF_FFFF ==> acc == 0x1_0000_0000u64,
            acc <= 0x1_0000_0000u64,
            spec_hex_value(d.take(i - from)) >= 0,
        decreases to - i,
    {
        let c = t[i];
        proof {
            assert(d[i - from] == t@[i as int]);
            assert(d.take(i + 1 - from).drop_last() =~= d.take(i - from));
            assert(d.take(i + 1 - from).last() == d[i - from]);
            lemma_hex_value_nonneg(d.take(i - from));
            lemma_hex_value_nonneg(d.take(i + 1 - from));
        }
        proof {
            lemma_has_digit_step(d, i - from);
        }
        if c == 95 {
        } else {
            let dig: u64 = if c <= 57 {
                (c - 48) as u64
            } else if c <= 70 {
                (c - 55) as u64
            } else {
                (c - 87) as u64
            };
            let raw: u64 = acc * 16 + dig;
            if raw > 0xFFFF_FFFF {
                acc = 0x1_0000_0000u64;
            } else {
                acc = raw;
            }
            seen = true;
        }
        i += 1;
    }
    proof {
        assert(d.take(to - from) =~= d);
    }
    (seen, acc)
}

/// Parses a section header from the tokens of a line whose first token
/// begins with '.'.
pub fn parse_header(toks: &Vec<Vec<u8>>) -> (r: HeaderResult)
    ensures
        !spec_header_shape_ok(toks.deep_view()) ==> r is BadShape,
        spec_header_shape_ok(toks.deep_view()) && !spec_header_addr_ok(toks.deep_view()) ==> (
        r matches HeaderResult::BadAddress { name } && name@ == spec_header_name(
            toks.deep_view(),
        )),
        spec_header_shape_ok(toks.deep_view()) && spec_header_addr_ok(toks.deep_view()) ==> (
        r matches HeaderResult::Parsed { name, addr } && name@ == spec_header_name(
            toks.deep_view(),
        ) && ((addr is None && spec_header_addr(toks.deep_view()) is None) || (addr matches Some(a)
            && spec_header_addr(toks.deep_view()) == Some(a as int)))),
{
    let ghost dv = toks.deep_view();
    proof {
        assert(forall|k: int| 0 <= k < dv.len() ==> dv[k] == (#[trigger] toks@[k])@);
    }
    if toks.len() == 0 {
        return HeaderResult::BadShape;
    }
    let t0 = &toks[0];
    proof {
        assert(t0@ == dv[0]);
    }
    let n0 = t0.len();
    if n0 >= 3 && t0[0] == 46 && t0[n0 - 1] == 58 && check_all_word(t0, 1, n0 - 1) {
        let name = copy_bytes(t0, 1, n0 - 1);
        proof {
            assert(spec_hdr_colon_form(dv[0]));
        }
        return HeaderResult::Parsed { name, addr: None };
    }
    proof {
        assert(!spec_hdr_colon_form(dv[0]));
    }
    if n0 >= 2 && t0[0] == 46 && check_all_word(t0, 1, n0) {
        proof {
            assert(t0@.skip(1) =~= t0@.subrange(1, n0 as int));
            assert(spec_hdr_plain_form(dv[0]));
        }
        if toks.len() >= 2 {
            let t1 = &toks[1];
            proof {
                assert(t1@ == dv[1]);
            }
            let n1 = t1.len();
            if n1 >= 4 && t1[0] == 48 && t1[1] == 120 && t1[n1 - 1] == 58 && check_all_hexu(
                t1,
                2,
                n1 - 1,
            ) {
                proof {
                    assert(spec_hdr_hex_form(dv[1]));
                }
                let (seen, value) = parse_hex_capped(t1, 2, n1 - 1);
                let name = copy_bytes(t0, 1, n0);
                if seen && value <= 0xFFFF_FFFF {
                    return HeaderResult::Parsed { name, addr: Some(value as u32) };
                }
                return HeaderResult::BadAddress { name };
            }
        }
        return HeaderResult::BadShape;
    }
    HeaderResult::BadShape
}

} // verus!
