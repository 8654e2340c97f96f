//! Operand tokens: immediates (`#` followed by decimal digits), thin
//! registers (a single letter A-H, the numeric form `R` followed by a thin
//! code, or one of P/J/K/L followed by a 0/1 half selector), and wide
//! registers (a bare P, J, K or L).  A token may carry one trailing comma.
//! Scanning is independent of the mnemonic: every token of the line is
//! classified, and tokens of no operand shape are ignored.

use vstd::prelude::*;

verus! {

/// A decimal digit byte, '0' through '9'.
pub open spec fn spec_is_digit(c: u8) -> bool {
    48 <= c <= 57
}

/// All bytes of `s` are decimal digits.
pub open spec fn spec_all_digits(s: Seq<u8>) -> bool {
    forall|k: int| 0 <= k < s.len() ==> spec_is_digit(#[trigger] s[k])
}

/// The value of a digit string, most significant digit first.
pub open spec fn spec_dec_value(s: Seq<u8>) -> int
    decreases s.len(),
{
    if s.len() == 0 {
        0
    } else {
        spec_dec_value(s.drop_last()) * 10 + (s.last() - 48)
    }
}

/// A digit string's value is capped into a `u16`: any value of 0xFFFF or
/// more reads as 0xFFFF.  Every width test the assembler makes lies below
/// the cap, so the capped value decides it exactly.
pub open spec fn spec_cap16(v: int) -> u16
    recommends
        v >= 0,
{
    if v < 0xFFFF {
        v as u16
    } else {
        0xFFFF
    }
}

/// Reads the decimal digits `t[from..to]`, capping at 0xFFFF.
pub fn parse_dec_capped(t: &Vec<u8>, from: usize, to: usize) -> (r: u16)
    requires
        from <= to <= t@.len(),
        spec_all_digits(t@.subrange(from as int, to as int)),
    ensures
        r == spec_cap16(spec_dec_value(t@.subrange(from as int, to as int))),
        spec_dec_value(t@.subrange(from as int, to as int)) >= 0,
{
    let ghost d = t@.subrange(from as int, to as int);
    proof {
        lemma_dec_value_nonneg(d);
        assert(d.take(0) =~= Seq::<u8>::empty());
    }
    let mut acc: u32 = 0;
    let mut i: usize = from;
    while i < to
        invariant
            from <= i <= to <= t@.len(),
            spec_all_digits(d),
            d == t@.subrange(from as int, to as int),
            d.len() == to - from,
            forall|k: int| 0 <= k < d.len() ==> d[k] == t@[from + k],
            acc == spec_cap16(spec_dec_value(d.take(i - from))),
            spec_dec_value(d.take(i - from)) >= 0,
        decreases to - i,
    {
        let c = t[i];
        proof {
            assert(d[i - from] == t@[i as int]);
            assert(d.take(i - from).push(d[i - from]) =~= d.take(i + 1 - from));
            lemma_dec_value_nonneg(d.take(i - from));
        }
        let dig: u32 = (c - 48) as u32;
        let raw: u32 = acc * 10 + dig;
        if raw >= 0xFFFF {
            acc = 0xFFFF;
        } else {
            acc = raw;
        }
        proof {
            assert(d.take(i + 1 - from).drop_last() =~= d.take(i - from));
            assert(d.take(i + 1 - from).last() == d[i - from]);
            let v = spec_dec_value(d.take(i - from));
            let v2 = spec_dec_value(d.take(i + 1 - from));
            assert(v2 == v * 10 + (d[i - from] - 48));
        }
        i += 1;
    }
    proof {
        assert(d.take(to - from) =~= d);
    }
    acc as u16
}

/// Digit-string values are never negative.
pub proof fn lemma_dec_value_nonneg(s: Seq<u8>)
    requires
        spec_all_digits(s),
    ensures
        spec_dec_value(s) >= 0,
    decreases s.len(),
{
    if s.len() > 0 {
        assert(spec_all_digits(s.drop_last()));
        lemma_dec_value_nonneg(s.drop_last());
    }
}

/// The token with one trailing comma removed, if it carries one.
pub open spec fn spec_strip_comma(t: Seq<u8>) -> Seq<u8> {
    if t.len() > 0 && t.last() == 44 {
        t.drop_last()
    } else {
        t
    }
}

/// An immediate token: '#' then at least one decimal digit.
pub open spec fn spec_is_imm_token(t: Seq<u8>) -> bool {
    t.len() >= 2 && t[0] == 35 && spec_all_digits(t.skip(1))
}

/// The value of an immediate token.
pub open spec fn spec_imm_value(t: Seq<u8>) -> int {
    spec_dec_value(t.skip(1))
}

/// A letter naming an arithmetic register: 'A' through 'H'.
pub open spec fn spec_is_arr_letter(c: u8) -> bool {
    65 <= c <= 72
}

/// A letter naming an address register: 'J', 'K', 'L' or 'P'.
pub open spec fn spec_is_addr_letter(c: u8) -> bool {
    c == 74 || c == 75 || c == 76 || c == 80
}

/// The thin code of an address register's low half: J is 8/9, K 10/11,
/// L 12/13, P 14/15.
pub open spec fn spec_addr_base(c: u8) -> u16
    recommends
        spec_is_addr_letter(c),
{
    if c == 74 {
        8
    } else if c == 75 {
        10
    } else if c == 76 {
        12
    } else {
        14
    }
}

/// A thin-register token: a single letter A-H, 'R' followed by digits
/// reading below 16, or an address letter with a 0/1 half selector.
pub open spec fn spec_is_thin_token(t: Seq<u8>) -> bool {
    ||| (t.len() == 1 && spec_is_arr_letter(t[0]))
    ||| (t.len() >= 2 && t[0] == 82 && spec_all_digits(t.skip(1)) && spec_dec_value(t.skip(1))
        < 16)
    ||| (t.len() == 2 && spec_is_addr_letter(t[0]) && (t[1] == 48 || t[1] == 49))
}

/// The thin code a thin-register token names.
pub open spec fn spec_thin_code(t: Seq<u8>) -> u16
    recommends
        spec_is_thin_token(t),
{
    if t.len() == 1 {
        (t[0] - 65) as u16
    } else if t[0] == 82 {
        spec_dec_value(t.skip(1)) as u16
    } else {
        (spec_addr_base(t[0]) + (t[1] - 48)) as u16
    }
}

/// A wide-register token: a bare address letter.
pub open spec fn spec_is_wide_token(t: Seq<u8>) -> bool {
    t.len() == 1 && spec_is_addr_letter(t[0])
}

/// The wide code a wide-register token names: J 0, K 1, L 2, P 3.
pub open spec fn spec_wide_code(t: Seq<u8>) -> u16
    recommends
        spec_is_wide_token(t),
{
    if t[0] == 74 {
        0
    } else if t[0] == 75 {
        1
    } else if t[0] == 76 {
        2
    } else {
        3
    }
}

/// A classified token.  Immediate values are capped as in `spec_cap16`.
#[derive(Clone, Copy, Debug, PartialEq, Eq, Structural)]
pub enum Tok {
    Imm { value: u16 },
    Thin { code: u16 },
    Wide { code: u16 },
    Other,
}

/// Checks that `t[from..to]` is all decimal digits.
fn check_all_digits(t: &Vec<u8>, from: usize, to: usize) -> (r: bool)
    requires
        from <= to <= t@.len(),
    ensures
        r == spec_all_digits(t@.subrange(from as int, to as int)),
{
    let ghost d = t@.subrange(from as int, to as int);
    let mut i: usize = from;
    while i < to
        invariant
            from <= i <= to <= t@.len(),
            d == t@.subrange(from as int, to as int),
            forall|k: int| 0 <= k < d.len() ==> d[k] == t@[from + k],
            forall|k: int| from <= k < i ==> spec_is_digit(#[trigger] t@[k]),
        decreases to - i,
    {
        let c = t[i];
        if c < 48 || c > 57 {
            proof {
                assert(d[i - from] == t@[i as int]);
            }
            return false;
        }
        i += 1;
    }
    proof {
        assert forall|k: int| 0 <= k < d.len() implies spec_is_digit(d[k]) by {
            assert(d[k] == t@[from + k]);
        }
    }
    true
}

/// Classifies one token, after stripping one trailing comma: an immediate,
/// a thin register, a wide register, or none of these.
pub fn classify_token(t: &Vec<u8>) -> (r: Tok)
    ensures
        ({
            let sc = spec_strip_comma(t@);
            &&& spec_is_imm_token(sc) ==> r == (Tok::Imm { value: spec_cap16(spec_imm_value(sc)) })
            &&& spec_is_thin_token(sc) ==> r == (Tok::Thin { code: spec_thin_code(sc) })
            &&& spec_is_wide_token(sc) ==> r == (Tok::Wide { code: spec_wide_code(sc) })
            &&& !spec_is_imm_token(sc) && !spec_is_thin_token(sc) && !spec_is_wide_token(sc) ==> r
                == Tok::Other
        }),
{
    let el: usize = if t.len() > 0 && t[t.len() - 1] == 44 {
        t.len() - 1
    } else {
        t.len()
    };
    let ghost sc = spec_strip_comma(t@);
    proof {
        assert(sc =~= t@.subrange(0, el as int));
        if el >= 1 {
            assert(sc.skip(1) =~= t@.subrange(1, el as int));
        }
    }
    if el >= 2 && t[0] == 35 {
        if check_all_digits(t, 1, el) {
            let value = parse_dec_capped(t, 1, el);
            return Tok::Imm { value };
        }
        return Tok::Other;
    }
    if el == 1 && 65 <= t[0] && t[0] <= 72 {
        return Tok::Thin { code: (t[0] - 65) as u16 };
    }
    if el >= 2 && t[0] == 82 {
        if check_all_digits(t, 1, el) {
            let value = parse_dec_capped(t, 1, el);
            if value < 16 {
                return Tok::Thin { code: value };
            }
        }
        return Tok::Other;
    }
    if el == 2 && (t[0] == 74 || t[0] == 75 || t[0] == 76 || t[0] == 80) && (t[1] == 48 || t[1]
        == 49) {
        let base: u16 = if t[0] == 74 {
            8
        } else if t[0] == 75 {
            10
        } else if t[0] == 76 {
            12
        } else {
            14
        };
        return Tok::Thin { code: base + ((t[1] - 48) as u16) };
    }
    if el == 1 && (t[0] == 74 || t[0] == 75 || t[0] == 76 || t[0] == 80) {
        let code: u16 = if t[0] == 74 {
            0
        } else if t[0] == 75 {
            1
        } else if t[0] == 76 {
            2
        } else {
            3
        };
        return Tok::Wide { code };
    }
    Tok::Other
}

/// The capped values of the immediate tokens of a line, in order.
pub open spec fn spec_scan_imms(toks: Seq<Seq<u8>>) -> Seq<u16>
    decreases toks.len(),
{
    if toks.len() == 0 {
        Seq::empty()
    } else {
        let front = spec_scan_imms(toks.drop_last());
        let sc = spec_strip_comma(toks.last());
        if spec_is_imm_token(sc) {
            front.push(spec_cap16(spec_imm_value(sc)))
        } else {
            front
        }
    }
}

/// The thin codes of the thin-register tokens of a line, in order.
pub open spec fn spec_scan_thins(toks: Seq<Seq<u8>>) -> Seq<u16>
    decreases toks.len(),
{
    if toks.len() == 0 {
        Seq::empty()
    } else {
        let front = spec_scan_thins(toks.drop_last());
        let sc = spec_strip_comma(toks.last());
        if !spec_is_imm_token(sc) && spec_is_thin_token(sc) {
            front.push(spec_thin_code(sc))
        } else {
            front
        }
    }
}

/// The wide codes of the wide-register tokens of a line, in order.
pub open spec fn spec_scan_wides(toks: Seq<Seq<u8>>) -> Seq<u16>
    decreases toks.len(),
{
    if toks.len() == 0 {
        Seq::empty()
    } else {
        let front = spec_scan_wides(toks.drop_last());
        let sc = spec_strip_comma(toks.last());
        if !spec_is_imm_token(sc) && !spec_is_thin_token(sc) && spec_is_wide_token(sc) {
            front.push(spec_wide_code(sc))
        } else {
            front
        }
    }
}

/// Scans every token of a line and collects the immediate values, thin
/// codes and wide codes, each in order of appearance.
pub fn scan_operands(toks: &Vec<Vec<u8>>) -> (r: (Vec<u16>, Vec<u16>, Vec<u16>))
    ensures
        r.0@ == spec_scan_imms(toks.deep_view()),
        r.1@ == spec_scan_thins(toks.deep_view()),
        r.2@ == spec_scan_wides(toks.deep_view()),
{
    let ghost dv = toks.deep_view();
    let mut imms: Vec<u16> = Vec::new();
    let mut thins: Vec<u16> = Vec::new();
    let mut wides: Vec<u16> = Vec::new();
    let mut i: usize = 0;
    proof {
        assert(dv.take(0) =~= Seq::<Seq<u8>>::empty());
    }
    while i < toks.len()
        invariant
            i <= toks.len(),
            dv == toks.deep_view(),
            dv.len() == toks@.len(),
            forall|k: int| 0 <= k < dv.len() ==> dv[k] == (#[trigger] toks@[k])@,
            imms@ == spec_scan_imms(dv.take(i as int)),
            thins@ == spec_scan_thins(dv.take(i as int)),
            wides@ == spec_scan_wides(dv.take(i as int)),
        decreases toks.len() - i,
    {
        proof {
            assert(dv.take(i + 1).drop_last() =~= dv.take(i as int));
            assert(dv.take(i + 1).last() == dv[i as int]);
            assert(dv[i as int] == toks@[i as int]@);
        }
        match classify_token(&toks[i]) {
            Tok::Imm { value } => {
                imms.push(value);
            },
            Tok::Thin { code } => {
                thins.push(code);
            },
            Tok::Wide { code } => {
                wides.push(code);
            },
            Tok::Other => {},
        }
        i += 1;
    }
    proof {
        assert(dv.take(toks.len() as int) =~= dv);
    }
    (imms, thins, wides)
}

} // verus!
