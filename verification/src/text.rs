//! Cleaning the text of a subtitle line: markup between delimiters is
//! dropped and line-break escapes become line breaks.

use crate::chars::{chars_of, string_of};
use vstd::prelude::*;

verus! {

/// By how much a character changes the nesting depth: an opening delimiter
/// raises it, a closing one lowers it. Where both delimiters are the same
/// character it counts as opening.
pub open spec fn depth_change(c: char, open: char, close: char) -> int {
    if c == open {
        1
    } else if c == close {
        -1
    } else {
        0
    }
}

/// The nesting depth after all of `s`. It is negative where more delimiters
/// closed than opened.
pub open spec fn tag_depth(s: Seq<char>, open: char, close: char) -> int
    decreases s.len(),
{
    if s.len() == 0 {
        0
    } else {
        tag_depth(s.drop_last(), open, close) + depth_change(s.last(), open, close)
    }
}

/// How a kept character is shown: a line feed becomes a space.
pub open spec fn shown_char(c: char) -> char {
    if c == '\n' {
        ' '
    } else {
        c
    }
}

/// Whether the last character of `s` is kept: it is no delimiter and the
/// depth before it is zero.
pub open spec fn keeps_last(s: Seq<char>, open: char, close: char) -> bool
    recommends
        s.len() > 0,
{
    s.last() != open && s.last() != close && tag_depth(s.drop_last(), open, close) == 0
}

/// `s` without its delimiters and without what stands at a depth other than
/// zero.
pub open spec fn stripped(s: Seq<char>, open: char, close: char) -> Seq<char>
    decreases s.len(),
{
    if s.len() == 0 {
        Seq::<char>::empty()
    } else if keeps_last(s, open, close) {
        stripped(s.drop_last(), open, close).push(shown_char(s.last()))
    } else {
        stripped(s.drop_last(), open, close)
    }
}

/// `s` with each backslash followed by `N` replaced by a line feed, matched
/// from the left without overlap.
pub open spec fn with_line_breaks(s: Seq<char>) -> Seq<char>
    decreases s.len(),
{
    if s.len() == 0 {
        s
    } else if s.len() >= 2 && s[0] == '\\' && s[1] == 'N' {
        seq!['\n'] + with_line_breaks(s.skip(2))
    } else {
        seq![s[0]] + with_line_breaks(s.skip(1))
    }
}

/// The text shown for a subtitle line: angle-bracket tags dropped, then
/// brace tags, then line-break escapes replaced.
pub open spec fn sanitized(s: Seq<char>) -> Seq<char> {
    with_line_breaks(stripped(stripped(s, '<', '>'), '{', '}'))
}

fn strip_chars(v: &Vec<char>, delim_start: char, delim_end: char) -> (out: Vec<char>)
    ensures
        out@ == stripped(v@, delim_start, delim_end),
{
    let mut out: Vec<char> = Vec::new();
    let mut count: i128 = 0;
    let mut i: usize = 0;
    assert(v@.take(0) =~= Seq::<char>::empty());
    while i < v.len()
        invariant
            i <= v.len(),
            -i <= count <= i,
            count == tag_depth(v@.take(i as int), delim_start, delim_end),
            out@ == stripped(v@.take(i as int), delim_start, delim_end),
        decreases v.len() - i,
    {
        let c = v[i];
        proof {
            assert(v@.take(i + 1).drop_last() =~= v@.take(i as int));
            assert(v@.take(i + 1).last() == c);
        }
        if c == delim_start {
            count += 1;
        } else if c == delim_end {
            count -= 1;
        } else if count == 0 {
            if c == '\n' {
                out.push(' ');
            } else {
                out.push(c);
            }
        }
        i += 1;
    }
    assert(v@.take(v.len() as int) =~= v@);
    out
}

fn break_chars(v: &Vec<char>) -> (out: Vec<char>)
    ensures
        out@ == with_line_breaks(v@),
{
    let mut out: Vec<char> = Vec::new();
    let mut i: usize = 0;
    assert(v@.skip(0) =~= v@);
    while i < v.len()
        invariant
            i <= v.len(),
            out@ + with_line_breaks(v@.skip(i as int)) == with_line_breaks(v@),
        decreases v.len() - i,
    {
        let ghost rest = v@.skip(i as int);
        let ghost before = out@;
        if v[i] == '\\' && i + 1 < v.len() && v[i + 1] == 'N' {
            out.push('\n');
            proof {
                assert(rest.skip(2) =~= v@.skip(i + 2));
                assert(out@ + with_line_breaks(v@.skip(i + 2)) =~= before + with_line_breaks(rest));
            }
            i += 2;
        } else {
            out.push(v[i]);
            proof {
                assert(rest.skip(1) =~= v@.skip(i + 1));
                assert(out@ + with_line_breaks(v@.skip(i + 1)) =~= before + with_line_breaks(rest));
            }
            i += 1;
        }
    }
    assert(out@ + with_line_breaks(v@.skip(v.len() as int)) =~= out@);
    out
}

/// Removes what stands between `delim_start` and `delim_end`, nested pairs
/// included, and the delimiters themselves. Line feeds in what is kept
/// become spaces. After a delimiter that is never closed nothing is kept.
pub fn strip_tags(input: &str, delim_start: char, delim_end: char) -> (output: String)
    ensures
        output@ == stripped(input@, delim_start, delim_end),
{
    let v = chars_of(input);
    let out = strip_chars(&v, delim_start, delim_end);
    string_of(&out)
}

/// The text shown for the subtitle line `line`.
pub fn sanitize_line(line: &str) -> (text: String)
    ensures
        text@ == sanitized(line@),
{
    let v = chars_of(line);
    let no_angle = strip_chars(&v, '<', '>');
    let no_brace = strip_chars(&no_angle, '{', '}');
    let out = break_chars(&no_brace);
    string_of(&out)
}

/// What is kept is never longer than the text it was taken from.
pub proof fn lemma_stripped_len(s: Seq<char>, open: char, close: char)
    ensures
        stripped(s, open, close).len() <= s.len(),
    decreases s.len(),
{
    if s.len() > 0 {
        lemma_stripped_len(s.drop_last(), open, close);
    }
}

/// A text without delimiters is kept whole, character by character.
pub proof fn lemma_stripped_plain(s: Seq<char>, open: char, close: char)
    requires
        forall|i: int| 0 <= i < s.len() ==> s[i] != open && s[i] != close,
    ensures
        tag_depth(s, open, close) == 0,
        stripped(s, open, close) == s.map_values(|c: char| shown_char(c)),
    decreases s.len(),
{
    if s.len() > 0 {
        lemma_stripped_plain(s.drop_last(), open, close);
        assert(stripped(s, open, close) =~= s.map_values(|c: char| shown_char(c)));
    } else {
        assert(stripped(s, open, close) =~= s.map_values(|c: char| shown_char(c)));
    }
}

/// Once the depth is above zero and no closing delimiter follows, nothing
/// more is kept.
pub proof fn lemma_unclosed_keeps_nothing(a: Seq<char>, b: Seq<char>, open: char, close: char)
    requires
        tag_depth(a, open, close) > 0,
        forall|i: int| 0 <= i < b.len() ==> b[i] != close || b[i] == open,
    ensures
        tag_depth(a + b, open, close) >= tag_depth(a, open, close),
        stripped(a + b, open, close) == stripped(a, open, close),
    decreases b.len(),
{
    if b.len() == 0 {
        assert(a + b =~= a);
    } else {
        assert((a + b).drop_last() =~= a + b.drop_last());
        assert((a + b).last() == b.last());
        lemma_unclosed_keeps_nothing(a, b.drop_last(), open, close);
    }
}

} // verus!
