//! Splitting a source text into lines, and one line into
//! whitespace-separated tokens.

use vstd::prelude::*;

use crate::sections::copy_bytes;

verus! {

/// Whitespace inside a source line: space, tab, or a carriage return left
/// by a CRLF line ending.
pub open spec fn spec_is_space(c: u8) -> bool {
    c == 32 || c == 9 || c == 13
}

pub fn is_space(c: u8) -> (r: bool)
    ensures
        r == spec_is_space(c),
{
    c == 32 || c == 9 || c == 13
}

/// The whitespace-separated tokens of a line, in order: the maximal runs
/// of non-whitespace bytes.
pub open spec fn spec_tokens(s: Seq<u8>) -> Seq<Seq<u8>>
    decreases s.len(),
{
    if s.len() == 0 {
        Seq::empty()
    } else {
        let rest = spec_tokens(s.drop_first());
        if spec_is_space(s[0]) {
            rest
        } else if s.len() > 1 && !spec_is_space(s[1]) && rest.len() > 0 {
            seq![seq![s[0]] + rest[0]] + rest.drop_first()
        } else {
            seq![seq![s[0]]] + rest
        }
    }
}

/// Skipping a whitespace byte does not change the tokens that follow.
proof fn lemma_tokens_space(s: Seq<u8>, i: int)
    requires
        0 <= i < s.len(),
        spec_is_space(s[i]),
    ensures
        spec_tokens(s.skip(i)) == spec_tokens(s.skip(i + 1)),
{
    assert(s.skip(i).drop_first() =~= s.skip(i + 1));
}

/// A maximal non-whitespace run `[i, j)` is the first token of what
/// follows position `i`.
proof fn lemma_tokens_of_token(s: Seq<u8>, i: int, j: int)
    requires
        0 <= i < j <= s.len(),
        forall|k: int| i <= k < j ==> !spec_is_space(#[trigger] s[k]),
        j == s.len() || spec_is_space(s[j]),
    ensures
        spec_tokens(s.skip(i)) == seq![s.subrange(i, j)] + spec_tokens(s.skip(j)),
    decreases j - i,
{
    let t = s.skip(i);
    assert(t[0] == s[i]);
    assert(t.drop_first() =~= s.skip(i + 1));
    if i + 1 == j {
        if j == s.len() {
            assert(t.len() == 1);
            assert(spec_tokens(t) == seq![seq![t[0]]] + spec_tokens(t.drop_first()));
            assert(s.skip(j).len() == 0);
        } else {
            assert(t.len() > 1 && spec_is_space(t[1]));
            assert(spec_tokens(t) == seq![seq![t[0]]] + spec_tokens(t.drop_first()));
            lemma_tokens_space(s, j);
        }
        assert(seq![t[0]] =~= s.subrange(i, j));
        assert(spec_tokens(t) =~~= seq![s.subrange(i, j)] + spec_tokens(s.skip(j)));
    } else {
        lemma_tokens_of_token(s, i + 1, j);
        let rest = spec_tokens(s.skip(i + 1));
        assert(rest == seq![s.subrange(i + 1, j)] + spec_tokens(s.skip(j)));
        assert(rest.len() > 0);
        assert(t.len() > 1);
        assert(t[1] == s[i + 1]);
        assert(!spec_is_space(s[i + 1]));
        assert(spec_tokens(t) == seq![seq![t[0]] + rest[0]] + rest.drop_first());
        assert(rest[0] == s.subrange(i + 1, j));
        assert(seq![t[0]] + s.subrange(i + 1, j) =~= s.subrange(i, j));
        assert(rest.drop_first() =~= spec_tokens(s.skip(j)));
        assert(spec_tokens(t) =~~= seq![s.subrange(i, j)] + spec_tokens(s.skip(j)));
    }
}

/// Splits a line into its whitespace-separated tokens.
pub fn tokenize(line: &Vec<u8>) -> (r: Vec<Vec<u8>>)
    ensures
        r.deep_view() == spec_tokens(line@),
{
    let mut toks: Vec<Vec<u8>> = Vec::new();
    let mut i: usize = 0;
    proof {
        assert(line@.skip(0) =~= line@);
        assert(toks.deep_view() =~= Seq::<Seq<u8>>::empty());
        assert(Seq::<Seq<u8>>::empty() + spec_tokens(line@) =~= spec_tokens(line@));
    }
    while i < line.len()
        invariant
            i <= line.len(),
            toks.deep_view() + spec_tokens(line@.skip(i as int)) == spec_tokens(line@),
        decreases line.len() - i,
    {
        if is_space(line[i]) {
            proof {
                lemma_tokens_space(line@, i as int);
            }
            i += 1;
        } else {
            let ghost start = i as int;
            let ghost old_dv = toks.deep_view();
            let mut tok: Vec<u8> = Vec::new();
            tok.push(line[i]);
            proof {
                assert(tok@ =~= line@.subrange(start, start + 1));
            }
            i += 1;
            while i < line.len() && !is_space(line[i])
                invariant
                    0 <= start < i <= line.len(),
                    tok@ == line@.subrange(start, i as int),
                    forall|k: int| start <= k < i ==> !spec_is_space(#[trigger] line@[k]),
                decreases line.len() - i,
            {
                tok.push(line[i]);
                proof {
                    assert(tok@ =~= line@.subrange(start, i + 1));
                }
                i += 1;
            }
            proof {
                lemma_tokens_of_token(line@, start, i as int);
            }
            toks.push(tok);
            proof {
                assert(toks.deep_view() =~~= old_dv + seq![tok@]);
                assert((old_dv + seq![tok@]) + spec_tokens(line@.skip(i as int)) =~~= old_dv + (
                seq![line@.subrange(start, i as int)] + spec_tokens(line@.skip(i as int))));
            }
        }
    }
    proof {
        assert(line@.skip(line@.len() as int) =~= Seq::<u8>::empty());
        assert(spec_tokens(Seq::<u8>::empty()) =~= Seq::<Seq<u8>>::empty());
        assert(toks.deep_view() + Seq::<Seq<u8>>::empty() =~= toks.deep_view());
    }
    toks
}

/// The lines of a source text, split at newline bytes.  A final newline
/// ends the last line rather than opening an empty one.
pub open spec fn spec_split_lines(s: Seq<u8>) -> Seq<Seq<u8>>
    decreases s.len(),
{
    if s.len() == 0 {
        Seq::empty()
    } else {
        let rest = spec_split_lines(s.drop_first());
        if s[0] == 10 {
            seq![Seq::<u8>::empty()] + rest
        } else if rest.len() == 0 {
            seq![seq![s[0]]]
        } else {
            seq![seq![s[0]] + rest[0]] + rest.drop_first()
        }
    }
}

/// A maximal newline-free run `[i, j)` is the first line of what follows
/// position `i`; the newline that ends it, if any, is consumed.
proof fn lemma_split_segment(s: Seq<u8>, i: int, j: int)
    requires
        0 <= i <= j <= s.len(),
        i < s.len(),
        forall|k: int| i <= k < j ==> #[trigger] s[k] != 10,
        j == s.len() || s[j] == 10,
    ensures
        spec_split_lines(s.skip(i)) == seq![s.subrange(i, j)] + (if j < s.len() {
            spec_split_lines(s.skip(j + 1))
        } else {
            Seq::<Seq<u8>>::empty()
        }),
    decreases j - i,
{
    let t = s.skip(i);
    assert(t[0] == s[i]);
    assert(t.drop_first() =~= s.skip(i + 1));
    if i == j {
        assert(s[j] == 10);
        assert(s.subrange(i, j) =~= Seq::<u8>::empty());
        assert(spec_split_lines(t) == seq![Seq::<u8>::empty()] + spec_split_lines(s.skip(j + 1)));
        assert(spec_split_lines(t) =~~= seq![s.subrange(i, j)] + spec_split_lines(s.skip(j + 1)));
    } else if i + 1 == j && j == s.len() {
        assert(t.len() == 1);
        assert(spec_split_lines(t.drop_first()) == Seq::<Seq<u8>>::empty());
        assert(spec_split_lines(t) == seq![seq![t[0]]]);
        assert(seq![t[0]] =~= s.subrange(i, j));
        assert(spec_split_lines(t) =~~= seq![s.subrange(i, j)] + Seq::<Seq<u8>>::empty());
    } else {
        lemma_split_segment(s, i + 1, j);
        let rest = spec_split_lines(s.skip(i + 1));
        assert(rest.len() > 0);
        assert(spec_split_lines(t) == seq![seq![t[0]] + rest[0]] + rest.drop_first());
        assert(rest[0] == s.subrange(i + 1, j));
        assert(seq![t[0]] + s.subrange(i + 1, j) =~= s.subrange(i, j));
        if j < s.len() {
            assert(rest.drop_first() =~= spec_split_lines(s.skip(j + 1)));
            assert(spec_split_lines(t) =~~= seq![s.subrange(i, j)] + spec_split_lines(
                s.skip(j + 1),
            ));
        } else {
            assert(rest.drop_first() =~= Seq::<Seq<u8>>::empty());
            assert(spec_split_lines(t) =~~= seq![s.subrange(i, j)] + Seq::<Seq<u8>>::empty());
        }
    }
}

/// Splits a source text into its lines.
pub fn split_lines(src: &Vec<u8>) -> (r: Vec<Vec<u8>>)
    ensures
        r.deep_view() == spec_split_lines(src@),
{
    let mut lines: Vec<Vec<u8>> = Vec::new();
    let mut i: usize = 0;
    proof {
        assert(src@.skip(0) =~= src@);
        assert(lines.deep_view() =~= Seq::<Seq<u8>>::empty());
        assert(Seq::<Seq<u8>>::empty() + spec_split_lines(src@) =~= spec_split_lines(src@));
    }
    while i < src.len()
        invariant
            i <= src.len(),
            lines.deep_view() + spec_split_lines(src@.skip(i as int)) == spec_split_lines(src@),
        decreases src.len() - i,
    {
        let mut j: usize = i;
        while j < src.len() && src[j] != 10
            invariant
                i <= j <= src.len(),
                forall|k: int| i <= k < j ==> #[trigger] src@[k] != 10,
            decreases src.len() - j,
        {
            j += 1;
        }
        let seg = copy_bytes(src, i, j);
        proof {
            lemma_split_segment(src@, i as int, j as int);
        }
        let ghost old_dv = lines.deep_view();
        lines.push(seg);
        proof {
            assert(lines.deep_view() =~~= old_dv + seq![seg@]);
            if j < src.len() {
                assert((old_dv + seq![seg@]) + spec_split_lines(src@.skip(j + 1)) =~~= old_dv + (
                seq![src@.subrange(i as int, j as int)] + spec_split_lines(src@.skip(j + 1))));
            } else {
                assert((old_dv + seq![seg@]) + Seq::<Seq<u8>>::empty() =~~= old_dv + (seq![
                    src@.subrange(i as int, j as int),
                ] + Seq::<Seq<u8>>::empty()));
                assert(src@.skip(src@.len() as int) =~= Seq::<u8>::empty());
                assert(spec_split_lines(Seq::<u8>::empty()) == Seq::<Seq<u8>>::empty());
            }
        }
        if j < src.len() {
            i = j + 1;
        } else {
            i = j;
        }
    }
    proof {
        assert(src@.skip(src@.len() as int) =~= Seq::<u8>::empty());
        assert(spec_split_lines(Seq::<u8>::empty()) == Seq::<Seq<u8>>::empty());
        assert(lines.deep_view() + Seq::<Seq<u8>>::empty() =~= lines.deep_view());
    }
    lines
}

} // verus!
