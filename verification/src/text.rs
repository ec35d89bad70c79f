//! Characters in and out of strings, truncation with an ellipsis, and word
//! wrapping with hyphenation.
//!
//! All widths count characters (`char`s), not bytes and not terminal cells.

use vstd::prelude::*;
use vstd::std_specs::iter::IteratorSpec;

verus! {

/// Whether a character beyond ASCII has the Unicode property `White_Space`,
/// as `char::is_whitespace` tests it. The set itself is not spelled out here.
pub uninterp spec fn wide_space(c: char) -> bool;

/// Whether `c` is whitespace in the sense of `char::is_whitespace`. Within
/// ASCII these are the space and the five characters from the horizontal tab
/// to the carriage return; beyond ASCII it is what the Unicode property
/// `White_Space` says.
pub open spec fn is_space(c: char) -> bool {
    if c <= '\x7f' {
        c == ' ' || ('\x09' <= c && c <= '\x0d')
    } else {
        wide_space(c)
    }
}

/// `char::is_whitespace` of std. Trusted: it tests the Unicode property
/// `White_Space`. The ASCII characters that have the property are stated;
/// for every other character the answer depends on the character alone and
/// has the name [`wide_space`].
pub assume_specification[ char::is_whitespace ](c: char) -> (b: bool)
    ensures
        b == is_space(c),
        c > '\x7f' ==> b == wide_space(c),
;

/// `String::push` of std. Trusted: it appends the one character and leaves
/// what was there in place.
pub assume_specification[ String::push ](s: &mut String, c: char)
    ensures
        final(s)@ == old(s)@.push(c),
;

/// The characters of `s`, in order.
pub(crate) fn chars_of(s: &str) -> (chars: Vec<char>)
    ensures
        chars@ == s@,
{
    let mut chars: Vec<char> = Vec::new();
    let all = s.chars();
    for c in it: all
        invariant
            chars@ == it.seq().take(it.index() as int),
            it.seq() == s@,
    {
        chars.push(c);
    }
    chars
}

/// The string made of `chars[from..to]`.
pub(crate) fn string_of(chars: &Vec<char>, from: usize, to: usize) -> (s: String)
    requires
        from <= to <= chars.len(),
    ensures
        s@ == chars@.subrange(from as int, to as int),
{
    let mut s = String::new();
    let mut i: usize = from;
    while i < to
        invariant
            from <= i <= to <= chars.len(),
            s@ == chars@.subrange(from as int, i as int),
        decreases to - i,
    {
        s.push(chars[i]);
        i += 1;
    }
    s
}

/// `n` copies of `c`.
pub open spec fn repeated(c: char, n: nat) -> Seq<char> {
    Seq::new(n, |i: int| c)
}

/// What a cell of `width` characters shows of `s`: `s` itself where it fits;
/// else its first `width - 3` characters and `...`; else, in a cell too narrow
/// for that, dots alone.
pub open spec fn ellipsized(s: Seq<char>, width: nat) -> Seq<char> {
    if s.len() <= width {
        s
    } else if width > 3 {
        s.take(width - 3) + repeated('.', 3)
    } else {
        repeated('.', width)
    }
}

/// Truncates `s` to `width` characters. A string that does not fit ends in
/// `...` and fills the width exactly; where `width` is under 4 it becomes
/// `width` dots.
pub fn ellipsize(s: &str, width: usize) -> (out: String)
    ensures
        out@ == ellipsized(s@, width as nat),
        out@.len() <= width,
        s@.len() > width ==> out@.len() == width,
{
    let chars = chars_of(s);
    if chars.len() <= width {
        s.to_owned()
    } else if width > 3 {
        let mut out = string_of(&chars, 0, width - 3);
        let mut dots: usize = 0;
        while dots < 3
            invariant
                dots <= 3,
                out@ == chars@.take(width - 3) + repeated('.', dots as nat),
            decreases 3 - dots,
        {
            out.push('.');
            dots += 1;
        }
        out
    } else {
        let mut out = String::new();
        let mut dots: usize = 0;
        while dots < width
            invariant
                dots <= width,
                out@ == repeated('.', dots as nat),
            decreases width - dots,
        {
            out.push('.');
            dots += 1;
        }
        out
    }
}

/// The index of the last whitespace character of `s`, or -1 where it has none.
pub open spec fn last_space(s: Seq<char>) -> int
    decreases s.len(),
{
    if s.len() == 0 {
        -1
    } else if is_space(s.last()) {
        s.len() - 1
    } else {
        last_space(s.drop_last())
    }
}

/// `last_space` is the one index that holds whitespace and has none after it.
pub proof fn lemma_last_space(s: Seq<char>)
    ensures
        -1 <= last_space(s) < s.len(),
        last_space(s) >= 0 ==> is_space(s[last_space(s)]),
        forall|i: int| last_space(s) < i < s.len() ==> !is_space(#[trigger] s[i]),
    decreases s.len(),
{
    if s.len() > 0 && !is_space(s.last()) {
        lemma_last_space(s.drop_last());
        assert forall|i: int| last_space(s) < i < s.len() implies !is_space(#[trigger] s[i]) by {
            if i < s.len() - 1 {
                assert(s[i] == s.drop_last()[i]);
            }
        }
    }
}

/// The lines of one paragraph `s` (a text without line breaks) in a column of
/// `width` characters.
///
/// A paragraph that fits is one line, an empty one too. Else the line ends
/// before the last whitespace among its first `width` characters, and that one
/// whitespace character is dropped. Where there is none, or it is the very
/// first character, the line is the first `width - 1` characters and a hyphen.
/// A column of one character has no room for the hyphen and takes one
/// character per line.
pub open spec fn wrap_segment(s: Seq<char>, width: nat) -> Seq<Seq<char>>
    decreases s.len(),
    via wrap_segment_decreases
{
    if width == 0 || s.len() <= width {
        seq![s]
    } else {
        let cut = last_space(s.take(width as int));
        if cut > 0 {
            seq![s.take(cut)] + wrap_segment(s.skip(cut + 1), width)
        } else if width == 1 {
            seq![s.take(1)] + wrap_segment(s.skip(1), width)
        } else {
            seq![s.take(width - 1).push('-')] + wrap_segment(s.skip(width - 1), width)
        }
    }
}

#[via_fn]
proof fn wrap_segment_decreases(s: Seq<char>, width: nat) {
    if width > 0 && s.len() > width {
        lemma_last_space(s.take(width as int));
    }
}

/// The index of the first line break of `s`, or `s.len()` where it has none.
pub open spec fn first_newline(s: Seq<char>) -> int
    decreases s.len(),
{
    if s.len() == 0 || s[0] == '\n' {
        0
    } else {
        1 + first_newline(s.drop_first())
    }
}

/// `first_newline` is the one index before which no line break stands and at
/// which one does, or the text ends.
pub proof fn lemma_first_newline(s: Seq<char>)
    ensures
        0 <= first_newline(s) <= s.len(),
        first_newline(s) < s.len() ==> s[first_newline(s)] == '\n',
        forall|i: int| 0 <= i < first_newline(s) ==> #[trigger] s[i] != '\n',
    decreases s.len(),
{
    if s.len() > 0 && s[0] != '\n' {
        lemma_first_newline(s.drop_first());
        assert forall|i: int| 0 <= i < first_newline(s) implies #[trigger] s[i] != '\n' by {
            if i > 0 {
                assert(s[i] == s.drop_first()[i - 1]);
            }
        }
    }
}

/// The lines of `s` in a column of `width >= 1` characters: its paragraphs, as
/// the line breaks part them, each wrapped by [`wrap_segment`].
pub open spec fn wrap_paragraphs(s: Seq<char>, width: nat) -> Seq<Seq<char>>
    decreases s.len(),
    via wrap_paragraphs_decreases
{
    let n = first_newline(s);
    if n >= s.len() {
        wrap_segment(s, width)
    } else {
        wrap_segment(s.take(n), width) + wrap_paragraphs(s.skip(n + 1), width)
    }
}

#[via_fn]
proof fn wrap_paragraphs_decreases(s: Seq<char>, width: nat) {
    lemma_first_newline(s);
}

/// The lines that show `s` in a column of `width` characters. A column of
/// width 0 shows one empty line, whatever the text.
pub open spec fn wrapped(s: Seq<char>, width: nat) -> Seq<Seq<char>> {
    if width == 0 {
        seq![Seq::<char>::empty()]
    } else {
        wrap_paragraphs(s, width)
    }
}

/// A paragraph wraps into at least one line, and no line is longer than the
/// column.
pub proof fn lemma_wrap_segment_bounded(s: Seq<char>, width: nat)
    requires
        width >= 1,
    ensures
        wrap_segment(s, width).len() >= 1,
        forall|i: int|
            0 <= i < wrap_segment(s, width).len() ==> (#[trigger] wrap_segment(s, width)[i]).len()
                <= width,
    decreases s.len(),
{
    if s.len() > width {
        lemma_last_space(s.take(width as int));
        let cut = last_space(s.take(width as int));
        if cut > 0 {
            lemma_wrap_segment_bounded(s.skip(cut + 1), width);
        } else if width == 1 {
            lemma_wrap_segment_bounded(s.skip(1), width);
        } else {
            lemma_wrap_segment_bounded(s.skip(width - 1), width);
        }
    }
}

/// A text wraps into at least one line, and in a column of one character or
/// more no line is longer than the column: long words are split, never left
/// to overflow.
pub proof fn lemma_wrapped_bounded(s: Seq<char>, width: nat)
    ensures
        wrapped(s, width).len() >= 1,
        width >= 1 ==> forall|i: int|
            0 <= i < wrapped(s, width).len() ==> (#[trigger] wrapped(s, width)[i]).len() <= width,
    decreases s.len(),
{
    if width >= 1 {
        lemma_first_newline(s);
        let n = first_newline(s);
        if n >= s.len() {
            lemma_wrap_segment_bounded(s, width);
        } else {
            lemma_wrap_segment_bounded(s.take(n), width);
            lemma_wrapped_bounded(s.skip(n + 1), width);
        }
    }
}

/// A word longer than the column, with no whitespace among its first `width`
/// characters, is split after `width - 1` of them and the line ends in a
/// hyphen.
pub proof fn lemma_long_word_is_hyphenated(s: Seq<char>, width: nat)
    requires
        width >= 2,
        s.len() > width,
        forall|i: int| 0 <= i < width ==> !is_space(#[trigger] s[i]),
    ensures
        wrap_segment(s, width)[0] == s.take(width - 1).push('-'),
        wrap_segment(s, width)[0].len() == width,
{
    lemma_last_space(s.take(width as int));
}

/// An index that holds whitespace and has none after it is `last_space`; so
/// is -1 where there is no whitespace at all.
proof fn lemma_last_space_is(s: Seq<char>, r: int)
    requires
        -1 <= r < s.len(),
        r >= 0 ==> is_space(s[r]),
        forall|i: int| r < i < s.len() ==> !is_space(#[trigger] s[i]),
    ensures
        last_space(s) == r,
{
    lemma_last_space(s);
}

/// An index before which no line break stands, and at which one does or the
/// text ends, is `first_newline`.
proof fn lemma_first_newline_is(s: Seq<char>, n: int)
    requires
        0 <= n <= s.len(),
        n < s.len() ==> s[n] == '\n',
        forall|i: int| 0 <= i < n ==> #[trigger] s[i] != '\n',
    ensures
        first_newline(s) == n,
{
    lemma_first_newline(s);
}

/// Appends to `lines` the lines of the paragraph `chars[start..end]`.
fn wrap_span(chars: &Vec<char>, start: usize, end: usize, width: usize, lines: &mut Vec<String>)
    requires
        start <= end <= chars.len(),
        width >= 1,
    ensures
        final(lines).deep_view() == old(lines).deep_view() + wrap_segment(
            chars@.subrange(start as int, end as int),
            width as nat,
        ),
{
    let ghost all = old(lines).deep_view() + wrap_segment(
        chars@.subrange(start as int, end as int),
        width as nat,
    );
    let mut idx: usize = start;
    loop
        invariant_except_break
            start <= idx <= end <= chars.len(),
            width >= 1,
            lines.deep_view() + wrap_segment(chars@.subrange(idx as int, end as int), width as nat)
                == all,
        ensures
            lines.deep_view() == all,
        decreases end - idx,
    {
        let ghost rest = chars@.subrange(idx as int, end as int);
        if end - idx <= width {
            let line = string_of(chars, idx, end);
            lines.push(line);
            break ;
        }
        let ghost head = rest.take(width as int);
        let mut found: usize = width;
        while found > 0 && !chars[idx + found - 1].is_whitespace()
            invariant
                found <= width,
                idx + width < end <= chars.len(),
                head == chars@.subrange(idx as int, idx + width),
                forall|i: int| found <= i < width ==> !is_space(#[trigger] head[i]),
            decreases found,
        {
            found -= 1;
        }
        proof {
            lemma_last_space_is(head, found - 1);
        }
        if found > 1 {
            let line = string_of(chars, idx, idx + found - 1);
            lines.push(line);
            assert(rest.take(found - 1) =~= chars@.subrange(idx as int, idx + found - 1));
            assert(rest.skip(found as int) =~= chars@.subrange(idx + found, end as int));
            idx += found;
        } else if width == 1 {
            let line = string_of(chars, idx, idx + 1);
            lines.push(line);
            assert(rest.skip(1) =~= chars@.subrange(idx + 1, end as int));
            idx += 1;
        } else {
            let mut line = string_of(chars, idx, idx + width - 1);
            line.push('-');
            lines.push(line);
            assert(rest.take(width - 1) =~= chars@.subrange(idx as int, idx + width - 1));
            assert(rest.skip(width - 1) =~= chars@.subrange(idx + width - 1, end as int));
            idx += width - 1;
        }
    }
}

/// Wraps `s` into lines of at most `width` characters.
///
/// Each line break in `s` ends a paragraph, and an empty paragraph is one
/// empty line. A line is broken at the last whitespace that fits, which is
/// dropped; a word that does not fit is split and the line ends in a hyphen.
/// The result is never empty. With `width` 0 it is a single empty line.
pub fn wrap_to_lines(s: &str, width: usize) -> (lines: Vec<String>)
    ensures
        lines.deep_view() == wrapped(s@, width as nat),
        lines.len() >= 1,
        width >= 1 ==> forall|i: int| 0 <= i < lines.len() ==> (#[trigger] lines[i])@.len() <= width,
{
    let mut lines: Vec<String> = Vec::new();
    if width == 0 {
        lines.push(String::new());
        return lines;
    }
    let chars = chars_of(s);
    let mut pos: usize = 0;
    assert(chars@.skip(0) =~= chars@);
    loop
        invariant_except_break
            pos <= chars.len(),
            width >= 1,
            lines.deep_view() + wrap_paragraphs(chars@.skip(pos as int), width as nat)
                == wrap_paragraphs(chars@, width as nat),
        ensures
            lines.deep_view() == wrap_paragraphs(chars@, width as nat),
        decreases chars.len() - pos,
    {
        let ghost rest = chars@.skip(pos as int);
        let mut end: usize = pos;
        while end < chars.len() && chars[end] != '\n'
            invariant
                pos <= end <= chars.len(),
                forall|i: int| pos <= i < end ==> #[trigger] chars[i] != '\n',
            decreases chars.len() - end,
        {
            end += 1;
        }
        proof {
            lemma_first_newline_is(rest, end - pos);
            assert(rest.take(end - pos) =~= chars@.subrange(pos as int, end as int));
        }
        wrap_span(&chars, pos, end, width, &mut lines);
        if end >= chars.len() {
            break ;
        }
        assert(rest.skip(end - pos + 1) =~= chars@.skip(end + 1));
        pos = end + 1;
    }
    proof {
        lemma_wrapped_bounded(s@, width as nat);
        assert forall|i: int| 0 <= i < lines.len() implies (#[trigger] lines[i])@.len()
            <= width by {
            assert(lines.deep_view()[i] == lines[i]@);
        }
    }
    lines
}

} // verus!
