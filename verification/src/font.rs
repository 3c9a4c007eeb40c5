//! Text measurement and line wrapping for `javax.microedition.lcdui.Font`.
//!
//! Widths come from the font backend, one per character (or one per line);
//! this module decides where lines break.
use vstd::prelude::*;

verus! {

/// Height of one line of text, in pixels.
pub const FONT_HEIGHT: i32 = 12;

/// `javax.microedition.lcdui.Font`: the text layout rules that do not
/// depend on glyph shapes.
pub struct Font;

/// The Unicode `White_Space` property, which `char::is_whitespace` reports.
pub open spec fn is_whitespace_char(c: char) -> bool {
    let v = c as u32;
    ||| 0x9 <= v <= 0xd
    ||| v == 0x20
    ||| v == 0x85
    ||| v == 0xa0
    ||| v == 0x1680
    ||| 0x2000 <= v <= 0x200a
    ||| v == 0x2028
    ||| v == 0x2029
    ||| v == 0x202f
    ||| v == 0x205f
    ||| v == 0x3000
}

/// Whether `c` has the Unicode `White_Space` property.
pub fn is_whitespace(c: char) -> (r: bool)
    ensures
        r == is_whitespace_char(c),
{
    let v = c as u32;
    (0x9 <= v && v <= 0xd) || v == 0x20 || v == 0x85 || v == 0xa0 || v == 0x1680 || (0x2000 <= v && v
        <= 0x200a) || v == 0x2028 || v == 0x2029 || v == 0x202f || v == 0x205f || v == 0x3000
}

/// The end of the paragraph that starts at `pos`: the first `'\n'` at or
/// after `pos`, or the end of the text.
pub open spec fn paragraph_end(text: Seq<char>, pos: int) -> int
    decreases text.len() - pos,
{
    if pos >= text.len() {
        text.len() as int
    } else if text[pos] == '\n' {
        pos
    } else {
        paragraph_end(text, pos + 1)
    }
}

/// Greedy filling of a line that starts at `start`: having taken the
/// characters before `end`, of total width `width`, where the line ends.
/// The first character is always taken; later ones while the total stays
/// within `max`.
pub open spec fn fill_end(widths: Seq<i32>, start: int, end: int, hi: int, width: int, max: int) -> int
    decreases hi - end,
{
    if end >= hi {
        hi
    } else if end > start && width + widths[end] > max {
        end
    } else {
        fill_end(widths, start, end + 1, hi, width + widths[end], max)
    }
}

/// One past the last whitespace character in `text[start..end]`, or `start`
/// when there is none.
pub open spec fn last_boundary(text: Seq<char>, start: int, end: int) -> int
    decreases end - start,
{
    if end <= start {
        start
    } else if is_whitespace_char(text[end - 1]) {
        end
    } else {
        last_boundary(text, start, end - 1)
    }
}

/// `end` with the trailing whitespace of `text[start..end]` taken off.
pub open spec fn trim_end(text: Seq<char>, start: int, end: int) -> int
    decreases end - start,
{
    if end > start && is_whitespace_char(text[end - 1]) {
        trim_end(text, start, end - 1)
    } else {
        end
    }
}

/// The first position at or after `pos` (and before `hi`) that is not whitespace.
pub open spec fn skip_whitespace(text: Seq<char>, pos: int, hi: int) -> int
    decreases hi - pos,
{
    if pos < hi && is_whitespace_char(text[pos]) {
        skip_whitespace(text, pos + 1, hi)
    } else {
        pos
    }
}

/// Where the line that starts at `start` is cut: after the whole rest of the
/// paragraph if it fits, else after the last space that fits, else after
/// the characters that fit.
pub open spec fn split_point(text: Seq<char>, widths: Seq<i32>, start: int, hi: int, max: int) -> int {
    let end = fill_end(widths, start, start, hi, 0, max);
    if end == hi {
        hi
    } else {
        let boundary = last_boundary(text, start, end);
        if boundary > start {
            boundary
        } else {
            end
        }
    }
}

pub proof fn lemma_fill_end_bounds(widths: Seq<i32>, start: int, end: int, hi: int, width: int, max: int)
    requires
        start <= end <= hi,
    ensures
        end <= fill_end(widths, start, end, hi, width, max) <= hi,
    decreases hi - end,
{
    if end < hi && !(end > start && width + widths[end] > max) {
        lemma_fill_end_bounds(widths, start, end + 1, hi, width + widths[end], max);
    }
}

pub proof fn lemma_fill_end_takes_one(widths: Seq<i32>, start: int, hi: int, width: int, max: int)
    requires
        start < hi,
    ensures
        start < fill_end(widths, start, start, hi, width, max) <= hi,
{
    lemma_fill_end_bounds(widths, start, start + 1, hi, width + widths[start], max);
}

pub proof fn lemma_last_boundary_bounds(text: Seq<char>, start: int, end: int)
    requires
        start <= end,
    ensures
        start <= last_boundary(text, start, end) <= end,
    decreases end - start,
{
    if end > start && !is_whitespace_char(text[end - 1]) {
        lemma_last_boundary_bounds(text, start, end - 1);
    }
}

pub proof fn lemma_trim_end_bounds(text: Seq<char>, start: int, end: int)
    requires
        start <= end,
    ensures
        start <= trim_end(text, start, end) <= end,
    decreases end - start,
{
    if end > start && is_whitespace_char(text[end - 1]) {
        lemma_trim_end_bounds(text, start, end - 1);
    }
}

pub proof fn lemma_skip_whitespace_bounds(text: Seq<char>, pos: int, hi: int)
    requires
        pos <= hi,
    ensures
        pos <= skip_whitespace(text, pos, hi) <= hi,
    decreases hi - pos,
{
    if pos < hi && is_whitespace_char(text[pos]) {
        lemma_skip_whitespace_bounds(text, pos + 1, hi);
    }
}

pub proof fn lemma_split_point_bounds(text: Seq<char>, widths: Seq<i32>, start: int, hi: int, max: int)
    requires
        start < hi,
    ensures
        start < split_point(text, widths, start, hi, max) <= hi,
{
    lemma_fill_end_takes_one(widths, start, hi, 0, max);
    lemma_last_boundary_bounds(text, start, fill_end(widths, start, start, hi, 0, max));
}

pub proof fn lemma_paragraph_end_bounds(text: Seq<char>, pos: int)
    requires
        0 <= pos <= text.len(),
    ensures
        pos <= paragraph_end(text, pos) <= text.len(),
    decreases text.len() - pos,
{
    if pos < text.len() && text[pos] != '\n' {
        lemma_paragraph_end_bounds(text, pos + 1);
    }
}

/// The lines of `text[start..hi]`, a non-empty run without line breaks,
/// broken greedily at width `max`.
pub open spec fn paragraph_lines(text: Seq<char>, widths: Seq<i32>, start: int, hi: int, max: int) -> Seq<
    Seq<char>,
>
    decreases hi - start,
{
    if start >= hi {
        Seq::empty()
    } else {
        let split = split_point(text, widths, start, hi, max);
        let next = skip_whitespace(text, split, hi);
        proof {
            lemma_split_point_bounds(text, widths, start, hi, max);
            lemma_skip_whitespace_bounds(text, split, hi);
        }
        seq![text.subrange(start, trim_end(text, start, split))] + paragraph_lines(
            text,
            widths,
            next,
            hi,
            max,
        )
    }
}

/// The lines of the paragraph `text[pos..end]`: one empty line when it is
/// empty, the paragraph itself without a width limit, else its greedy lines
/// at a limit of at least one pixel.
pub open spec fn wrap_paragraph(
    text: Seq<char>,
    widths: Seq<i32>,
    pos: int,
    end: int,
    maximum_width: Option<int>,
) -> Seq<Seq<char>> {
    if pos >= end {
        seq![Seq::<char>::empty()]
    } else {
        match maximum_width {
            None => seq![text.subrange(pos, end)],
            Some(m) => paragraph_lines(text, widths, pos, end, if m < 1 { 1 } else { m }),
        }
    }
}

/// The lines of `text` from the paragraph that starts at `pos` on.
pub open spec fn wrap_from(text: Seq<char>, widths: Seq<i32>, pos: int, maximum_width: Option<int>) -> Seq<
    Seq<char>,
>
    decreases text.len() - pos,
{
    if pos < 0 || pos > text.len() {
        Seq::empty()
    } else {
        let end = paragraph_end(text, pos);
        proof {
            lemma_paragraph_end_bounds(text, pos);
        }
        if end >= text.len() {
            wrap_paragraph(text, widths, pos, end, maximum_width)
        } else {
            wrap_paragraph(text, widths, pos, end, maximum_width) + wrap_from(
                text,
                widths,
                end + 1,
                maximum_width,
            )
        }
    }
}

/// The lines `text` is laid out in: every `'\n'` starts a new line, and,
/// with a maximum width, a paragraph is broken greedily, preferably after
/// whitespace, with trailing whitespace dropped from each line and leading
/// whitespace from each continuation line.
pub open spec fn wrap_lines(text: Seq<char>, widths: Seq<i32>, maximum_width: Option<int>) -> Seq<Seq<char>> {
    wrap_from(text, widths, 0, maximum_width)
}

pub open spec fn opt_int(value: Option<i32>) -> Option<int> {
    match value {
        Some(v) => Some(v as int),
        None => None,
    }
}

fn paragraph_end_exec(text: &Vec<char>, pos: usize) -> (r: usize)
    requires
        pos <= text@.len(),
    ensures
        r == paragraph_end(text@, pos as int),
{
    let mut i = pos;
    while i < text.len() && text[i] != '\n'
        invariant
            pos <= i <= text@.len(),
            paragraph_end(text@, i as int) == paragraph_end(text@, pos as int),
        decreases text@.len() - i,
    {
        i += 1;
    }
    i
}

fn fill_end_exec(widths: &Vec<i32>, start: usize, hi: usize, max: i32) -> (r: usize)
    requires
        start <= hi <= widths@.len(),
    ensures
        r == fill_end(widths@, start as int, start as int, hi as int, 0, max as int),
{
    let mut end = start;
    let mut width: i128 = 0;
    while end < hi
        invariant
            start <= end <= hi <= widths@.len(),
            fill_end(widths@, start as int, end as int, hi as int, width as int, max as int) == fill_end(
                widths@,
                start as int,
                start as int,
                hi as int,
                0,
                max as int,
            ),
            width <= i32::MAX,
            end == start ==> width == 0,
            width >= i32::MIN * (end - start),
        decreases hi - end,
    {
        let character_width = widths[end] as i128;
        if end > start && width + character_width > max as i128 {
            return end;
        }
        width = width + character_width;
        assert(width >= i32::MIN * (end - start) + i32::MIN);
        end += 1;
    }
    end
}

fn last_boundary_exec(text: &Vec<char>, start: usize, end: usize) -> (r: usize)
    requires
        start <= end <= text@.len(),
    ensures
        r == last_boundary(text@, start as int, end as int),
{
    let mut i = end;
    while i > start && !is_whitespace(text[i - 1])
        invariant
            start <= i <= end <= text@.len(),
            last_boundary(text@, start as int, i as int) == last_boundary(
                text@,
                start as int,
                end as int,
            ),
        decreases i - start,
    {
        i -= 1;
    }
    i
}

fn trim_end_exec(text: &Vec<char>, start: usize, end: usize) -> (r: usize)
    requires
        start <= end <= text@.len(),
    ensures
        r == trim_end(text@, start as int, end as int),
{
    let mut i = end;
    while i > start && is_whitespace(text[i - 1])
        invariant
            start <= i <= end <= text@.len(),
            trim_end(text@, start as int, i as int) == trim_end(text@, start as int, end as int),
        decreases i - start,
    {
        i -= 1;
    }
    i
}

fn skip_whitespace_exec(text: &Vec<char>, pos: usize, hi: usize) -> (r: usize)
    requires
        pos <= hi <= text@.len(),
    ensures
        r == skip_whitespace(text@, pos as int, hi as int),
{
    let mut i = pos;
    while i < hi && is_whitespace(text[i])
        invariant
            pos <= i <= hi <= text@.len(),
            skip_whitespace(text@, i as int, hi as int) == skip_whitespace(text@, pos as int, hi as int),
        decreases hi - i,
    {
        i += 1;
    }
    i
}

fn split_point_exec(text: &Vec<char>, widths: &Vec<i32>, start: usize, hi: usize, max: i32) -> (r: usize)
    requires
        start < hi <= text@.len(),
        widths@.len() == text@.len(),
    ensures
        r == split_point(text@, widths@, start as int, hi as int, max as int),
{
    let end = fill_end_exec(widths, start, hi, max);
    proof {
        lemma_fill_end_takes_one(widths@, start as int, hi as int, 0, max as int);
    }
    if end == hi {
        hi
    } else {
        let boundary = last_boundary_exec(text, start, end);
        if boundary > start {
            boundary
        } else {
            end
        }
    }
}

/// The characters `text[start..end]`.
pub fn copy_range(text: &Vec<char>, start: usize, end: usize) -> (r: Vec<char>)
    requires
        start <= end <= text@.len(),
    ensures
        r@ == text@.subrange(start as int, end as int),
{
    let mut r: Vec<char> = Vec::new();
    let mut i = start;
    while i < end
        invariant
            start <= i <= end <= text@.len(),
            r@ == text@.subrange(start as int, i as int),
        decreases end - i,
    {
        r.push(text[i]);
        i += 1;
        assert(r@ =~= text@.subrange(start as int, i as int));
    }
    r
}

fn push_paragraph_lines(
    text: &Vec<char>,
    widths: &Vec<i32>,
    pos: usize,
    hi: usize,
    max: i32,
    lines: &mut Vec<Vec<char>>,
)
    requires
        pos <= hi <= text@.len(),
        widths@.len() == text@.len(),
    ensures
        final(lines)@.map_values(|l: Vec<char>| l@) == old(lines)@.map_values(|l: Vec<char>| l@) + paragraph_lines(
            text@,
            widths@,
            pos as int,
            hi as int,
            max as int,
        ),
{
    let mut start = pos;
    while start < hi
        invariant
            pos <= start <= hi <= text@.len(),
            widths@.len() == text@.len(),
            lines@.map_values(|l: Vec<char>| l@) + paragraph_lines(text@, widths@, start as int, hi as int, max as int)
                == old(lines)@.map_values(|l: Vec<char>| l@) + paragraph_lines(
                text@,
                widths@,
                pos as int,
                hi as int,
                max as int,
            ),
        decreases hi - start,
    {
        let split = split_point_exec(text, widths, start, hi, max);
        proof {
            lemma_split_point_bounds(text@, widths@, start as int, hi as int, max as int);
            lemma_trim_end_bounds(text@, start as int, split as int);
            lemma_skip_whitespace_bounds(text@, split as int, hi as int);
        }
        let trimmed = trim_end_exec(text, start, split);
        let line = copy_range(text, start, trimmed);
        let next = skip_whitespace_exec(text, split, hi);
        let ghost before = lines@.map_values(|l: Vec<char>| l@);
        let ghost rest = paragraph_lines(text@, widths@, next as int, hi as int, max as int);
        lines.push(line);
        proof {
            assert(lines@.map_values(|l: Vec<char>| l@) =~= before.push(line@));
            assert(paragraph_lines(text@, widths@, start as int, hi as int, max as int) == seq![line@]
                + rest);
            assert(before.push(line@) + rest =~= before + (seq![line@] + rest));
        }
        start = next;
    }
    proof {
        assert(lines@.map_values(|l: Vec<char>| l@) + paragraph_lines(text@, widths@, start as int, hi as int, max as int)
            =~= lines@.map_values(|l: Vec<char>| l@));
    }
}

impl Font {
    /// Breaks `text` into the lines it is drawn in. `char_widths[i]` is the
    /// width of `text[i]`. Every `'\n'` starts a new line; with a maximum
    /// width (at least one pixel), a paragraph is broken where its
    /// characters stop fitting, preferably after whitespace.
    pub fn wrap(text: &Vec<char>, char_widths: &Vec<i32>, maximum_width: Option<i32>) -> (lines: Vec<
        Vec<char>,
    >)
        requires
            char_widths@.len() == text@.len(),
        ensures
            lines@.map_values(|l: Vec<char>| l@) == wrap_lines(text@, char_widths@, opt_int(maximum_width)),
    {
        let mut lines: Vec<Vec<char>> = Vec::new();
        let mut pos: usize = 0;
        loop
            invariant
                pos <= text@.len(),
                char_widths@.len() == text@.len(),
                lines@.map_values(|l: Vec<char>| l@) + wrap_from(text@, char_widths@, pos as int, opt_int(maximum_width))
                    == wrap_lines(text@, char_widths@, opt_int(maximum_width)),
            decreases text@.len() - pos,
        {
            let end = paragraph_end_exec(text, pos);
            proof {
                lemma_paragraph_end_bounds(text@, pos as int);
            }
            let ghost before = lines@.map_values(|l: Vec<char>| l@);
            let ghost this_paragraph = wrap_paragraph(
                text@,
                char_widths@,
                pos as int,
                end as int,
                opt_int(maximum_width),
            );
            if pos == end {
                lines.push(Vec::new());
                proof {
                    assert(lines@.map_values(|l: Vec<char>| l@) =~= before + this_paragraph);
                }
            } else {
                match maximum_width {
                    None => {
                        let line = copy_range(text, pos, end);
                        lines.push(line);
                        proof {
                            assert(lines@.map_values(|l: Vec<char>| l@) =~= before + this_paragraph);
                        }
                    },
                    Some(m) => {
                        let max = if m < 1 {
                            1
                        } else {
                            m
                        };
                        push_paragraph_lines(text, char_widths, pos, end, max, &mut lines);
                    },
                }
            }
            if end >= text.len() {
                proof {
                    assert(wrap_from(text@, char_widths@, pos as int, opt_int(maximum_width))
                        == this_paragraph);
                }
                return lines;
            }
            proof {
                let rest = wrap_from(text@, char_widths@, end + 1, opt_int(maximum_width));
                assert(wrap_from(text@, char_widths@, pos as int, opt_int(maximum_width))
                    == this_paragraph + rest);
                assert(before + (this_paragraph + rest) =~= (before + this_paragraph) + rest);
            }
            pos = end + 1;
        }
    }
}

/// `lines` joined with `'\n'` between them.
pub open spec fn join_lines(lines: Seq<Seq<char>>) -> Seq<char>
    decreases lines.len(),
{
    if lines.len() == 0 {
        Seq::empty()
    } else if lines.len() == 1 {
        lines[0]
    } else {
        lines[0] + seq!['\n'] + join_lines(lines.drop_first())
    }
}

proof fn lemma_paragraph_end_no_break(text: Seq<char>, pos: int)
    requires
        0 <= pos <= text.len(),
    ensures
        forall|i: int| pos <= i < paragraph_end(text, pos) ==> text[i] != '\n',
        paragraph_end(text, pos) < text.len() ==> text[paragraph_end(text, pos)] == '\n',
    decreases text.len() - pos,
{
    if pos < text.len() && text[pos] != '\n' {
        lemma_paragraph_end_no_break(text, pos + 1);
    }
}

proof fn lemma_unlimited_wrap_from(text: Seq<char>, widths: Seq<i32>, pos: int)
    requires
        0 <= pos <= text.len(),
    ensures
        wrap_from(text, widths, pos, None).len() > 0,
        join_lines(wrap_from(text, widths, pos, None)) == text.subrange(pos, text.len() as int),
        forall|k: int, i: int|
            0 <= k < wrap_from(text, widths, pos, None).len() && 0 <= i < wrap_from(
                text,
                widths,
                pos,
                None,
            )[k].len() ==> #[trigger] wrap_from(text, widths, pos, None)[k][i] != '\n',
    decreases text.len() - pos,
{
    lemma_paragraph_end_bounds(text, pos);
    lemma_paragraph_end_no_break(text, pos);
    let end = paragraph_end(text, pos);
    let first = wrap_paragraph(text, widths, pos, end, None);
    assert(first == seq![text.subrange(pos, end)]) by {
        if pos >= end {
            assert(text.subrange(pos, end) =~= Seq::<char>::empty());
        }
    }
    if end >= text.len() {
        assert(join_lines(first) == first[0]);
    } else {
        lemma_unlimited_wrap_from(text, widths, end + 1);
        let rest = wrap_from(text, widths, end + 1, None);
        let all = first + rest;
        assert(all.drop_first() =~= rest);
        assert(join_lines(all) == all[0] + seq!['\n'] + join_lines(rest));
        assert(text.subrange(pos, text.len() as int) =~= text.subrange(pos, end) + seq!['\n']
            + text.subrange(end + 1, text.len() as int));
        assert forall|k: int, i: int|
            0 <= k < all.len() && 0 <= i < all[k].len() implies #[trigger] all[k][i] != '\n' by {
            if k > 0 {
                assert(all[k] == rest[k - 1]);
            }
        }
    }
}

/// Without a maximum width, wrapping only splits at line breaks: the lines
/// contain no `'\n'` and, joined with `'\n'`, give back the text.
pub proof fn lemma_unlimited_wrap_splits_at_line_breaks(text: Seq<char>, widths: Seq<i32>)
    ensures
        join_lines(wrap_lines(text, widths, None)) == text,
        forall|k: int, i: int|
            0 <= k < wrap_lines(text, widths, None).len() && 0 <= i < wrap_lines(
                text,
                widths,
                None,
            )[k].len() ==> #[trigger] wrap_lines(text, widths, None)[k][i] != '\n',
{
    lemma_unlimited_wrap_from(text, widths, 0);
    assert(text.subrange(0, text.len() as int) =~= text);
}

/// Total width of the characters at `a..b`.
pub open spec fn range_width(widths: Seq<i32>, a: int, b: int) -> int
    decreases b - a,
{
    if a >= b {
        0
    } else {
        range_width(widths, a, b - 1) + widths[b - 1]
    }
}

/// Total width of `line` when each character `c` is `char_width(c)` wide.
pub open spec fn chars_width(line: Seq<char>, char_width: spec_fn(char) -> int) -> int
    decreases line.len(),
{
    if line.len() == 0 {
        0
    } else {
        chars_width(line.drop_last(), char_width) + char_width(line.last())
    }
}

proof fn lemma_fill_end_fits(widths: Seq<i32>, start: int, end: int, hi: int, width: int, max: int)
    requires
        start <= end <= hi <= widths.len(),
        width == range_width(widths, start, end),
        end >= start + 2 ==> width <= max,
    ensures
        fill_end(widths, start, end, hi, width, max) >= start + 2 ==> range_width(
            widths,
            start,
            fill_end(widths, start, end, hi, width, max),
        ) <= max,
    decreases hi - end,
{
    if end < hi && !(end > start && width + widths[end] > max) {
        lemma_fill_end_fits(widths, start, end + 1, hi, width + widths[end], max);
    }
}

proof fn lemma_range_width_monotonic(widths: Seq<i32>, a: int, t: int, e: int)
    requires
        a <= t <= e <= widths.len(),
        0 <= a,
        forall|i: int| 0 <= i < widths.len() ==> widths[i] >= 0,
    ensures
        range_width(widths, a, t) <= range_width(widths, a, e),
    decreases e - t,
{
    if t < e {
        lemma_range_width_monotonic(widths, a, t, e - 1);
    }
}

proof fn lemma_chars_width_of_range(
    text: Seq<char>,
    widths: Seq<i32>,
    char_width: spec_fn(char) -> int,
    a: int,
    b: int,
)
    requires
        0 <= a <= b <= text.len() == widths.len(),
        forall|i: int| 0 <= i < text.len() ==> widths[i] == char_width(#[trigger] text[i]),
    ensures
        chars_width(text.subrange(a, b), char_width) == range_width(widths, a, b),
    decreases b - a,
{
    if a < b {
        lemma_chars_width_of_range(text, widths, char_width, a, b - 1);
        assert(text.subrange(a, b).drop_last() =~= text.subrange(a, b - 1));
    }
}

/// A line that fits: a single character, or characters whose widths add up
/// to at most `max`.
pub open spec fn line_fits(line: Seq<char>, char_width: spec_fn(char) -> int, max: int) -> bool {
    line.len() >= 2 ==> chars_width(line, char_width) <= max
}

proof fn lemma_paragraph_lines_fit(
    text: Seq<char>,
    widths: Seq<i32>,
    char_width: spec_fn(char) -> int,
    start: int,
    hi: int,
    max: int,
)
    requires
        0 <= start <= hi <= text.len() == widths.len(),
        forall|i: int| 0 <= i < text.len() ==> widths[i] == char_width(#[trigger] text[i]),
        forall|i: int| 0 <= i < widths.len() ==> widths[i] >= 0,
    ensures
        forall|k: int|
            0 <= k < paragraph_lines(text, widths, start, hi, max).len() ==> line_fits(
                #[trigger] paragraph_lines(text, widths, start, hi, max)[k],
                char_width,
                max,
            ),
    decreases hi - start,
{
    if start < hi {
        let split = split_point(text, widths, start, hi, max);
        let next = skip_whitespace(text, split, hi);
        let end = fill_end(widths, start, start, hi, 0, max);
        lemma_split_point_bounds(text, widths, start, hi, max);
        lemma_skip_whitespace_bounds(text, split, hi);
        lemma_fill_end_takes_one(widths, start, hi, 0, max);
        lemma_fill_end_fits(widths, start, start, hi, 0, max);
        lemma_last_boundary_bounds(text, start, end);
        let trimmed = trim_end(text, start, split);
        lemma_trim_end_bounds(text, start, split);
        let line = text.subrange(start, trimmed);
        assert(split <= end);
        if trimmed >= start + 2 {
            lemma_range_width_monotonic(widths, start, trimmed, end);
        }
        lemma_chars_width_of_range(text, widths, char_width, start, trimmed);
        assert(line_fits(line, char_width, max));
        lemma_paragraph_lines_fit(text, widths, char_width, next, hi, max);
        let rest = paragraph_lines(text, widths, next, hi, max);
        let all = paragraph_lines(text, widths, start, hi, max);
        assert(all == seq![line] + rest);
        assert forall|k: int| 0 <= k < all.len() implies line_fits(#[trigger] all[k], char_width, max) by {
            if k > 0 {
                assert(all[k] == rest[k - 1]);
            }
        }
    }
}

proof fn lemma_limited_wrap_from_fits(
    text: Seq<char>,
    widths: Seq<i32>,
    char_width: spec_fn(char) -> int,
    pos: int,
    m: int,
)
    requires
        0 <= pos <= text.len() == widths.len(),
        forall|i: int| 0 <= i < text.len() ==> widths[i] == char_width(#[trigger] text[i]),
        forall|i: int| 0 <= i < widths.len() ==> widths[i] >= 0,
    ensures
        forall|k: int|
            0 <= k < wrap_from(text, widths, pos, Some(m)).len() ==> line_fits(
                #[trigger] wrap_from(text, widths, pos, Some(m))[k],
                char_width,
                if m < 1 { 1 } else { m },
            ),
    decreases text.len() - pos,
{
    let limit = if m < 1 { 1 } else { m };
    lemma_paragraph_end_bounds(text, pos);
    let end = paragraph_end(text, pos);
    let first = wrap_paragraph(text, widths, pos, end, Some(m));
    if pos < end {
        lemma_paragraph_lines_fit(text, widths, char_width, pos, end, limit);
    }
    assert forall|k: int| 0 <= k < first.len() implies line_fits(#[trigger] first[k], char_width, limit) by {}
    if end < text.len() {
        lemma_limited_wrap_from_fits(text, widths, char_width, end + 1, m);
        let rest = wrap_from(text, widths, end + 1, Some(m));
        let all = first + rest;
        assert forall|k: int| 0 <= k < all.len() implies line_fits(#[trigger] all[k], char_width, limit) by {
            if k >= first.len() {
                assert(all[k] == rest[k - first.len()]);
            }
        }
    }
}

/// With a maximum width, every line fits: when each character has a fixed,
/// non-negative width, a line of two or more characters is no wider than
/// the maximum (taken as at least one pixel). A single character wider than
/// the maximum gets a line of its own.
pub proof fn lemma_wrapped_lines_fit(
    text: Seq<char>,
    widths: Seq<i32>,
    char_width: spec_fn(char) -> int,
    maximum_width: int,
)
    requires
        widths.len() == text.len(),
        forall|i: int| 0 <= i < text.len() ==> widths[i] == char_width(#[trigger] text[i]),
        forall|c: char| #[trigger] char_width(c) >= 0,
    ensures
        forall|k: int|
            0 <= k < wrap_lines(text, widths, Some(maximum_width)).len() ==> line_fits(
                #[trigger] wrap_lines(text, widths, Some(maximum_width))[k],
                char_width,
                if maximum_width < 1 { 1 } else { maximum_width },
            ),
{
    assert forall|i: int| 0 <= i < widths.len() implies widths[i] >= 0 by {
        assert(widths[i] == char_width(text[i]));
    }
    lemma_limited_wrap_from_fits(text, widths, char_width, 0, maximum_width);
}

/// How many `'\n'` there are in `text[pos..]`.
pub open spec fn line_break_count(text: Seq<char>, pos: int) -> nat
    decreases text.len() - pos,
{
    if pos < 0 || pos >= text.len() {
        0
    } else {
        (if text[pos] == '\n' { 1nat } else { 0nat }) + line_break_count(text, pos + 1)
    }
}

proof fn lemma_no_break_before_paragraph_end(text: Seq<char>, pos: int)
    requires
        0 <= pos <= text.len(),
    ensures
        line_break_count(text, pos) == line_break_count(text, paragraph_end(text, pos)),
    decreases text.len() - pos,
{
    if pos < text.len() && text[pos] != '\n' {
        lemma_no_break_before_paragraph_end(text, pos + 1);
    }
}

proof fn lemma_paragraph_has_a_line(
    text: Seq<char>,
    widths: Seq<i32>,
    pos: int,
    end: int,
    maximum_width: Option<int>,
)
    ensures
        wrap_paragraph(text, widths, pos, end, maximum_width).len() >= 1,
{
    if pos < end {
        if let Some(m) = maximum_width {
            let max = if m < 1 { 1 } else { m };
            assert(paragraph_lines(text, widths, pos, end, max).len() >= 1);
        }
    }
}

proof fn lemma_wrap_from_counts_breaks(text: Seq<char>, widths: Seq<i32>, pos: int, maximum_width: Option<int>)
    requires
        0 <= pos <= text.len(),
    ensures
        wrap_from(text, widths, pos, maximum_width).len() >= line_break_count(text, pos) + 1,
    decreases text.len() - pos,
{
    let end = paragraph_end(text, pos);
    lemma_paragraph_end_bounds(text, pos);
    lemma_no_break_before_paragraph_end(text, pos);
    lemma_paragraph_has_a_line(text, widths, pos, end, maximum_width);
    if end < text.len() {
        lemma_wrap_from_counts_breaks(text, widths, end + 1, maximum_width);
    }
}

/// Every line break starts a new line: with or without a maximum width,
/// wrapping gives at least one line more than there are `'\n'`.
pub proof fn lemma_wrap_keeps_line_breaks(text: Seq<char>, widths: Seq<i32>, maximum_width: Option<int>)
    ensures
        wrap_lines(text, widths, maximum_width).len() >= line_break_count(text, 0) + 1,
{
    lemma_wrap_from_counts_breaks(text, widths, 0, maximum_width);
}

/// A line that is empty or ends in a character that is not whitespace.
pub open spec fn ends_clean(line: Seq<char>) -> bool {
    line.len() == 0 || !is_whitespace_char(line.last())
}

proof fn lemma_trim_end_clean(text: Seq<char>, start: int, end: int)
    requires
        0 <= start <= end <= text.len(),
    ensures
        ends_clean(text.subrange(start, trim_end(text, start, end))),
    decreases end - start,
{
    if end > start && is_whitespace_char(text[end - 1]) {
        lemma_trim_end_clean(text, start, end - 1);
    }
}

proof fn lemma_paragraph_lines_clean(text: Seq<char>, widths: Seq<i32>, start: int, hi: int, max: int)
    requires
        0 <= start,
        hi <= text.len(),
    ensures
        forall|k: int|
            0 <= k < paragraph_lines(text, widths, start, hi, max).len() ==> ends_clean(
                #[trigger] paragraph_lines(text, widths, start, hi, max)[k],
            ),
    decreases hi - start,
{
    if start < hi {
        let split = split_point(text, widths, start, hi, max);
        let next = skip_whitespace(text, split, hi);
        lemma_split_point_bounds(text, widths, start, hi, max);
        lemma_skip_whitespace_bounds(text, split, hi);
        lemma_trim_end_clean(text, start, split);
        lemma_paragraph_lines_clean(text, widths, next, hi, max);
        let first = seq![text.subrange(start, trim_end(text, start, split))];
        let rest = paragraph_lines(text, widths, next, hi, max);
        assert(paragraph_lines(text, widths, start, hi, max) == first + rest);
        assert forall|k: int| 0 <= k < (first + rest).len() implies ends_clean(#[trigger] (first + rest)[k]) by {
            if k >= 1 {
                assert((first + rest)[k] == rest[k - 1]);
            }
        }
    }
}

proof fn lemma_limited_wrap_from_clean(text: Seq<char>, widths: Seq<i32>, pos: int, m: int)
    requires
        0 <= pos <= text.len(),
    ensures
        forall|k: int|
            0 <= k < wrap_from(text, widths, pos, Some(m)).len() ==> ends_clean(
                #[trigger] wrap_from(text, widths, pos, Some(m))[k],
            ),
    decreases text.len() - pos,
{
    let end = paragraph_end(text, pos);
    lemma_paragraph_end_bounds(text, pos);
    let max = if m < 1 { 1 } else { m };
    if pos < end {
        lemma_paragraph_lines_clean(text, widths, pos, end, max);
    }
    let first = wrap_paragraph(text, widths, pos, end, Some(m));
    assert forall|k: int| 0 <= k < first.len() implies ends_clean(#[trigger] first[k]) by {
        if pos >= end {
            assert(first[k] =~= Seq::<char>::empty());
        }
    }
    if end < text.len() {
        lemma_limited_wrap_from_clean(text, widths, end + 1, m);
        let rest = wrap_from(text, widths, end + 1, Some(m));
        assert forall|k: int| 0 <= k < (first + rest).len() implies ends_clean(#[trigger] (first + rest)[k]) by {
            if k >= first.len() {
                assert((first + rest)[k] == rest[k - first.len()]);
            }
        }
    }
}

/// With a maximum width, no line ends in whitespace: trailing whitespace
/// is dropped where a line is broken.
pub proof fn lemma_wrapped_lines_end_clean(text: Seq<char>, widths: Seq<i32>, maximum_width: int)
    ensures
        forall|k: int|
            0 <= k < wrap_lines(text, widths, Some(maximum_width)).len() ==> ends_clean(
                #[trigger] wrap_lines(text, widths, Some(maximum_width))[k],
            ),
{
    lemma_limited_wrap_from_clean(text, widths, 0, maximum_width);
}

proof fn lemma_paragraph_end_is_break(text: Seq<char>, pos: int)
    requires
        0 <= pos <= text.len(),
    ensures
        paragraph_end(text, pos) < text.len() ==> text[paragraph_end(text, pos)] == '\n',
    decreases text.len() - pos,
{
    if pos < text.len() && text[pos] != '\n' {
        lemma_paragraph_end_is_break(text, pos + 1);
    }
}

/// The characters of `s` that are not whitespace, in order.
pub open spec fn visible_chars(s: Seq<char>) -> Seq<char> {
    s.filter(|c: char| !is_whitespace_char(c))
}

proof fn lemma_blank_has_no_visible_chars(s: Seq<char>)
    requires
        forall|i: int| 0 <= i < s.len() ==> is_whitespace_char(#[trigger] s[i]),
    ensures
        visible_chars(s) == Seq::<char>::empty(),
    decreases s.len(),
{
    reveal(Seq::filter);
    if s.len() > 0 {
        lemma_blank_has_no_visible_chars(s.drop_last());
    }
}

proof fn lemma_visible_chars_add(a: Seq<char>, b: Seq<char>)
    ensures
        visible_chars(a + b) == visible_chars(a) + visible_chars(b),
{
    Seq::filter_distributes_over_add(a, b, |c: char| !is_whitespace_char(c));
}

proof fn lemma_flatten_add(a: Seq<Seq<char>>, b: Seq<Seq<char>>)
    ensures
        (a + b).flatten() == a.flatten() + b.flatten(),
    decreases a.len(),
{
    if a.len() == 0 {
        assert(a + b =~= b);
        assert(a.flatten() + b.flatten() =~= b.flatten());
    } else {
        assert((a + b).drop_first() =~= a.drop_first() + b);
        lemma_flatten_add(a.drop_first(), b);
        assert((a + b).first() == a.first());
        assert(a.first() + (a.drop_first().flatten() + b.flatten()) =~= (a.first() + a.drop_first().flatten())
            + b.flatten());
    }
}

proof fn lemma_trim_end_drops_blanks(text: Seq<char>, start: int, end: int)
    requires
        0 <= start <= end <= text.len(),
    ensures
        forall|i: int| trim_end(text, start, end) <= i < end ==> is_whitespace_char(#[trigger] text[i]),
    decreases end - start,
{
    if end > start && is_whitespace_char(text[end - 1]) {
        lemma_trim_end_drops_blanks(text, start, end - 1);
    }
}

proof fn lemma_skip_whitespace_skips_blanks(text: Seq<char>, pos: int, hi: int)
    requires
        0 <= pos <= hi <= text.len(),
    ensures
        forall|i: int| pos <= i < skip_whitespace(text, pos, hi) ==> is_whitespace_char(#[trigger] text[i]),
    decreases hi - pos,
{
    if pos < hi && is_whitespace_char(text[pos]) {
        lemma_skip_whitespace_skips_blanks(text, pos + 1, hi);
    }
}

proof fn lemma_paragraph_lines_keep_visible(text: Seq<char>, widths: Seq<i32>, start: int, hi: int, max: int)
    requires
        0 <= start <= hi <= text.len(),
    ensures
        visible_chars(paragraph_lines(text, widths, start, hi, max).flatten()) == visible_chars(
            text.subrange(start, hi),
        ),
    decreases hi - start,
{
    if start >= hi {
        assert(text.subrange(start, hi) =~= Seq::<char>::empty());
        lemma_blank_has_no_visible_chars(text.subrange(start, hi));
        assert(paragraph_lines(text, widths, start, hi, max).flatten() =~= Seq::<char>::empty());
    } else {
        let split = split_point(text, widths, start, hi, max);
        let next = skip_whitespace(text, split, hi);
        lemma_split_point_bounds(text, widths, start, hi, max);
        lemma_skip_whitespace_bounds(text, split, hi);
        lemma_trim_end_bounds(text, start, split);
        let t = trim_end(text, start, split);
        lemma_trim_end_drops_blanks(text, start, split);
        lemma_skip_whitespace_skips_blanks(text, split, hi);
        lemma_paragraph_lines_keep_visible(text, widths, next, hi, max);
        let line = text.subrange(start, t);
        let blanks = text.subrange(t, next);
        let rest = paragraph_lines(text, widths, next, hi, max);
        assert forall|i: int| 0 <= i < blanks.len() implies is_whitespace_char(#[trigger] blanks[i]) by {
            assert(blanks[i] == text[t + i]);
        }
        lemma_blank_has_no_visible_chars(blanks);
        assert(text.subrange(start, hi) =~= line + blanks + text.subrange(next, hi));
        lemma_visible_chars_add(line + blanks, text.subrange(next, hi));
        lemma_visible_chars_add(line, blanks);
        let lines = paragraph_lines(text, widths, start, hi, max);
        assert(lines == seq![line] + rest);
        assert(lines.drop_first() =~= rest);
        assert(lines.flatten() == line + rest.flatten());
        lemma_visible_chars_add(line, rest.flatten());
        assert(visible_chars(line) + Seq::<char>::empty() =~= visible_chars(line));
    }
}

proof fn lemma_wrap_from_keeps_visible(text: Seq<char>, widths: Seq<i32>, pos: int, maximum_width: Option<int>)
    requires
        0 <= pos <= text.len(),
    ensures
        visible_chars(wrap_from(text, widths, pos, maximum_width).flatten()) == visible_chars(
            text.subrange(pos, text.len() as int),
        ),
    decreases text.len() - pos,
{
    let end = paragraph_end(text, pos);
    lemma_paragraph_end_bounds(text, pos);
    let first = wrap_paragraph(text, widths, pos, end, maximum_width);
    assert(visible_chars(first.flatten()) == visible_chars(text.subrange(pos, end))) by {
        if pos >= end {
            assert(first.drop_first() =~= Seq::<Seq<char>>::empty());
            assert(Seq::<Seq<char>>::empty().flatten() == Seq::<char>::empty());
            assert(first.first() == Seq::<char>::empty());
            assert(first.flatten() =~= Seq::<char>::empty());
            assert(text.subrange(pos, end) =~= Seq::<char>::empty());
        } else {
            match maximum_width {
                None => {
                    assert(first.drop_first() =~= Seq::<Seq<char>>::empty());
                    assert(Seq::<Seq<char>>::empty().flatten() == Seq::<char>::empty());
                    assert(first.first() == text.subrange(pos, end));
                    assert(first.flatten() =~= text.subrange(pos, end));
                },
                Some(m) => {
                    lemma_paragraph_lines_keep_visible(text, widths, pos, end, if m < 1 { 1 } else { m });
                },
            }
        }
    }
    if end >= text.len() {
        assert(wrap_from(text, widths, pos, maximum_width) == first);
    } else {
        lemma_wrap_from_keeps_visible(text, widths, end + 1, maximum_width);
        let rest = wrap_from(text, widths, end + 1, maximum_width);
        lemma_flatten_add(first, rest);
        lemma_visible_chars_add(first.flatten(), rest.flatten());
        let tail = text.subrange(end + 1, text.len() as int);
        lemma_paragraph_end_is_break(text, pos);
        assert(text.subrange(pos, text.len() as int) =~= text.subrange(pos, end) + seq!['\n'] + tail);
        lemma_blank_has_no_visible_chars(seq!['\n']);
        lemma_visible_chars_add(text.subrange(pos, end) + seq!['\n'], tail);
        lemma_visible_chars_add(text.subrange(pos, end), seq!['\n']);
        assert(visible_chars(text.subrange(pos, end)) + Seq::<char>::empty() =~= visible_chars(
            text.subrange(pos, end),
        ));
    }
}

/// Wrapping loses and adds no visible character: the characters of the
/// lines that are not whitespace are, in order, those of the text.
pub proof fn lemma_wrap_keeps_visible_chars(text: Seq<char>, widths: Seq<i32>, maximum_width: Option<int>)
    ensures
        visible_chars(wrap_lines(text, widths, maximum_width).flatten()) == visible_chars(text),
{
    lemma_wrap_from_keeps_visible(text, widths, 0, maximum_width);
    assert(text.subrange(0, text.len() as int) =~= text);
}

proof fn lemma_range_width_split(widths: Seq<i32>, a: int, b: int, c: int)
    requires
        a <= b <= c,
    ensures
        range_width(widths, a, c) == range_width(widths, a, b) + range_width(widths, b, c),
    decreases c - b,
{
    if b < c {
        lemma_range_width_split(widths, a, b, c - 1);
    }
}

/// From a start that is no earlier, the same end is no wider.
proof fn lemma_range_width_suffix(widths: Seq<i32>, a: int, b: int, c: int)
    requires
        0 <= a <= b <= c <= widths.len(),
        forall|i: int| 0 <= i < widths.len() ==> widths[i] >= 0,
    ensures
        range_width(widths, b, c) <= range_width(widths, a, c),
{
    lemma_range_width_split(widths, a, b, c);
    lemma_range_width_monotonic(widths, a, a, b);
}

/// Filling goes on at least to any end whose width fits.
proof fn lemma_fill_end_reaches(widths: Seq<i32>, start: int, cur: int, e: int, hi: int, max: int)
    requires
        0 <= start <= cur <= hi <= widths.len(),
        e <= hi,
        start <= e,
        range_width(widths, start, e) <= max,
        forall|i: int| 0 <= i < widths.len() ==> widths[i] >= 0,
    ensures
        fill_end(widths, start, cur, hi, range_width(widths, start, cur), max) >= e,
    decreases hi - cur,
{
    lemma_fill_end_bounds(widths, start, cur, hi, range_width(widths, start, cur), max);
    if cur < hi && cur < e {
        lemma_range_width_monotonic(widths, start, cur + 1, e);
        lemma_fill_end_reaches(widths, start, cur + 1, e, hi, max);
    }
}

/// A line that starts no earlier and may be no narrower fills no less far.
proof fn lemma_fill_end_monotone(widths: Seq<i32>, start1: int, start2: int, hi: int, max1: int, max2: int)
    requires
        0 <= start1 <= start2 < hi <= widths.len(),
        max1 <= max2,
        forall|i: int| 0 <= i < widths.len() ==> widths[i] >= 0,
    ensures
        fill_end(widths, start1, start1, hi, 0, max1) <= fill_end(widths, start2, start2, hi, 0, max2),
{
    let f1 = fill_end(widths, start1, start1, hi, 0, max1);
    lemma_fill_end_takes_one(widths, start1, hi, 0, max1);
    lemma_fill_end_takes_one(widths, start2, hi, 0, max2);
    if f1 > start2 + 1 {
        lemma_fill_end_fits(widths, start1, start1, hi, 0, max1);
        lemma_range_width_suffix(widths, start1, start2, f1);
        lemma_fill_end_reaches(widths, start2, start2, f1, hi, max2);
    }
}

proof fn lemma_last_boundary_covers(text: Seq<char>, start: int, end: int, j: int)
    requires
        start <= j < end,
        is_whitespace_char(text[j]),
    ensures
        last_boundary(text, start, end) >= j + 1,
    decreases end - start,
{
    if !is_whitespace_char(text[end - 1]) {
        lemma_last_boundary_covers(text, start, end - 1, j);
    }
}

proof fn lemma_last_boundary_is_whitespace(text: Seq<char>, start: int, end: int)
    requires
        start <= end,
    ensures
        last_boundary(text, start, end) > start ==> is_whitespace_char(text[last_boundary(text, start, end) - 1]),
        last_boundary(text, start, end) == start ==> forall|j: int|
            start <= j < end ==> !is_whitespace_char(#[trigger] text[j]),
    decreases end - start,
{
    if end > start && !is_whitespace_char(text[end - 1]) {
        lemma_last_boundary_is_whitespace(text, start, end - 1);
    }
}

/// A line that starts no earlier and may be no narrower is cut no earlier.
proof fn lemma_split_point_monotone(
    text: Seq<char>,
    widths: Seq<i32>,
    start1: int,
    start2: int,
    hi: int,
    max1: int,
    max2: int,
)
    requires
        0 <= start1 <= start2 < hi <= widths.len(),
        max1 <= max2,
        forall|i: int| 0 <= i < widths.len() ==> widths[i] >= 0,
    ensures
        split_point(text, widths, start1, hi, max1) <= split_point(text, widths, start2, hi, max2),
{
    let f1 = fill_end(widths, start1, start1, hi, 0, max1);
    let f2 = fill_end(widths, start2, start2, hi, 0, max2);
    lemma_fill_end_monotone(widths, start1, start2, hi, max1, max2);
    lemma_split_point_bounds(text, widths, start1, hi, max1);
    lemma_split_point_bounds(text, widths, start2, hi, max2);
    lemma_fill_end_takes_one(widths, start1, hi, 0, max1);
    lemma_fill_end_takes_one(widths, start2, hi, 0, max2);
    if f2 != hi {
        let b1 = last_boundary(text, start1, f1);
        let b2 = last_boundary(text, start2, f2);
        lemma_last_boundary_bounds(text, start1, f1);
        lemma_last_boundary_bounds(text, start2, f2);
        lemma_last_boundary_is_whitespace(text, start1, f1);
        lemma_last_boundary_is_whitespace(text, start2, f2);
        if b1 > start1 {
            if b1 - 1 >= start2 {
                lemma_last_boundary_covers(text, start2, f2, b1 - 1);
            }
        } else {
            if b2 > start2 && b2 - 1 < f1 {
                assert(!is_whitespace_char(text[b2 - 1]));
            }
        }
    }
}

proof fn lemma_skip_whitespace_monotone(text: Seq<char>, a: int, b: int, hi: int)
    requires
        a <= b <= hi,
    ensures
        skip_whitespace(text, a, hi) <= skip_whitespace(text, b, hi),
    decreases hi - a,
{
    lemma_skip_whitespace_bounds(text, b, hi);
    if a < hi && is_whitespace_char(text[a]) && a < b {
        lemma_skip_whitespace_monotone(text, a + 1, b, hi);
    }
}

proof fn lemma_paragraph_lines_monotone(
    text: Seq<char>,
    widths: Seq<i32>,
    start1: int,
    start2: int,
    hi: int,
    max1: int,
    max2: int,
)
    requires
        0 <= start1 <= start2 <= hi <= widths.len(),
        max1 <= max2,
        forall|i: int| 0 <= i < widths.len() ==> widths[i] >= 0,
    ensures
        paragraph_lines(text, widths, start1, hi, max1).len() >= paragraph_lines(text, widths, start2, hi, max2).len(),
    decreases hi - start1,
{
    if start2 < hi {
        let split1 = split_point(text, widths, start1, hi, max1);
        let split2 = split_point(text, widths, start2, hi, max2);
        lemma_split_point_monotone(text, widths, start1, start2, hi, max1, max2);
        lemma_split_point_bounds(text, widths, start1, hi, max1);
        lemma_split_point_bounds(text, widths, start2, hi, max2);
        lemma_skip_whitespace_monotone(text, split1, split2, hi);
        let next1 = skip_whitespace(text, split1, hi);
        let next2 = skip_whitespace(text, split2, hi);
        lemma_skip_whitespace_bounds(text, split1, hi);
        lemma_skip_whitespace_bounds(text, split2, hi);
        lemma_paragraph_lines_monotone(text, widths, next1, next2, hi, max1, max2);
    }
}

proof fn lemma_wrap_from_monotone(text: Seq<char>, widths: Seq<i32>, pos: int, m1: int, m2: int)
    requires
        0 <= pos <= text.len() == widths.len(),
        m1 <= m2,
        forall|i: int| 0 <= i < widths.len() ==> widths[i] >= 0,
    ensures
        wrap_from(text, widths, pos, Some(m1)).len() >= wrap_from(text, widths, pos, Some(m2)).len(),
    decreases text.len() - pos,
{
    let end = paragraph_end(text, pos);
    lemma_paragraph_end_bounds(text, pos);
    if pos < end {
        lemma_paragraph_lines_monotone(
            text,
            widths,
            pos,
            pos,
            end,
            if m1 < 1 { 1 } else { m1 },
            if m2 < 1 { 1 } else { m2 },
        );
    }
    if end < text.len() {
        lemma_wrap_from_monotone(text, widths, end + 1, m1, m2);
    }
}

/// A narrower width never gives fewer lines: when no character is of
/// negative width, wrapping at `narrow` gives at least as many lines as
/// wrapping at `wide`.
pub proof fn lemma_narrower_wraps_into_no_fewer_lines(t: TextView, narrow: int, wide: int)
    requires
        text_wf(t),
        narrow <= wide,
        forall|i: int| 0 <= i < t.char_widths.len() ==> #[trigger] t.char_widths[i] >= 0,
    ensures
        text_line_count(t, Some(narrow)) >= text_line_count(t, Some(wide)),
{
    lemma_wrap_from_monotone(t.chars, t.char_widths, 0, narrow, wide);
}

proof fn lemma_paragraph_lines_at_most(text: Seq<char>, widths: Seq<i32>, start: int, hi: int, max: int)
    requires
        start <= hi,
    ensures
        paragraph_lines(text, widths, start, hi, max).len() <= hi - start,
    decreases hi - start,
{
    if start < hi {
        let split = split_point(text, widths, start, hi, max);
        lemma_split_point_bounds(text, widths, start, hi, max);
        lemma_skip_whitespace_bounds(text, split, hi);
        lemma_paragraph_lines_at_most(text, widths, skip_whitespace(text, split, hi), hi, max);
    }
}

proof fn lemma_wrap_from_at_most(text: Seq<char>, widths: Seq<i32>, pos: int, maximum_width: Option<int>)
    requires
        0 <= pos <= text.len(),
    ensures
        wrap_from(text, widths, pos, maximum_width).len() <= text.len() - pos + 1,
    decreases text.len() - pos,
{
    let end = paragraph_end(text, pos);
    lemma_paragraph_end_bounds(text, pos);
    if pos < end {
        match maximum_width {
            Some(m) => lemma_paragraph_lines_at_most(text, widths, pos, end, if m < 1 { 1 } else { m }),
            None => {},
        }
    }
    if end < text.len() {
        lemma_wrap_from_at_most(text, widths, end + 1, maximum_width);
    }
}

/// A text is never drawn in more lines than it has characters, plus one:
/// every line but the last of a paragraph takes at least one character.
pub proof fn lemma_line_count_at_most_chars(t: TextView, maximum_width: Option<int>)
    ensures
        0 <= text_line_count(t, maximum_width) <= t.chars.len() + 1,
{
    lemma_wrap_from_at_most(t.chars, t.char_widths, 0, maximum_width);
}

/// The largest width among `text[0..n]`, skipping `'\n'`, if there is any
/// other character.
pub open spec fn widest_char(text: Seq<char>, widths: Seq<i32>, n: int) -> Option<int>
    decreases n,
{
    if n <= 0 {
        None
    } else {
        let before = widest_char(text, widths, n - 1);
        if text[n - 1] == '\n' {
            before
        } else {
            match before {
                Some(w) => Some(if widths[n - 1] > w { widths[n - 1] as int } else { w }),
                None => Some(widths[n - 1] as int),
            }
        }
    }
}

/// The largest of `values[0..n]`, if `n > 0`.
pub open spec fn largest(values: Seq<i32>, n: int) -> Option<int>
    decreases n,
{
    if n <= 0 {
        None
    } else {
        match largest(values, n - 1) {
            Some(w) => Some(if values[n - 1] > w { values[n - 1] as int } else { w }),
            None => Some(values[n - 1] as int),
        }
    }
}

pub open spec fn or_zero(value: Option<int>) -> int {
    match value {
        Some(v) => v,
        None => 0,
    }
}

impl Font {
    /// The narrowest width `text` can be laid out in: that of its widest
    /// character other than `'\n'`, or 0 when it has none.
    pub fn minimum_width(text: &Vec<char>, char_widths: &Vec<i32>) -> (width: i32)
        requires
            char_widths@.len() == text@.len(),
        ensures
            width == or_zero(widest_char(text@, char_widths@, text@.len() as int)),
    {
        let mut best: Option<i32> = None;
        let mut i: usize = 0;
        while i < text.len()
            invariant
                i <= text@.len() == char_widths@.len(),
                opt_int(best) == widest_char(text@, char_widths@, i as int),
            decreases text@.len() - i,
        {
            if text[i] != '\n' {
                let w = char_widths[i];
                best = match best {
                    Some(b) => Some(if w > b { w } else { b }),
                    None => Some(w),
                };
            }
            i += 1;
        }
        match best {
            Some(b) => b,
            None => 0,
        }
    }

    /// The width `text` takes unwrapped: that of its widest line, given the
    /// width of each line; 0 when there are no lines.
    pub fn preferred_width(line_widths: &Vec<i32>) -> (width: i32)
        ensures
            width == or_zero(largest(line_widths@, line_widths@.len() as int)),
    {
        let mut best: Option<i32> = None;
        let mut i: usize = 0;
        while i < line_widths.len()
            invariant
                i <= line_widths@.len(),
                opt_int(best) == largest(line_widths@, i as int),
            decreases line_widths@.len() - i,
        {
            let w = line_widths[i];
            best = match best {
                Some(b) => Some(if w > b { w } else { b }),
                None => Some(w),
            };
            i += 1;
        }
        match best {
            Some(b) => b,
            None => 0,
        }
    }
}

/// The abstract value of a [`MeasuredText`].
pub struct TextView {
    pub chars: Seq<char>,
    pub char_widths: Seq<i32>,
    pub line_widths: Seq<i32>,
}

/// A text together with its measurements in the platform font: the width
/// of each character, and the width of each line between `'\n'`s.
pub struct MeasuredText {
    pub chars: Vec<char>,
    pub char_widths: Vec<i32>,
    pub line_widths: Vec<i32>,
}

impl View for MeasuredText {
    type V = TextView;

    open spec fn view(&self) -> TextView {
        TextView { chars: self.chars@, char_widths: self.char_widths@, line_widths: self.line_widths@ }
    }
}

/// One width per character.
pub open spec fn text_wf(t: TextView) -> bool {
    t.char_widths.len() == t.chars.len()
}

/// How many lines `t` is drawn in, wrapped at `maximum_width`.
pub open spec fn text_line_count(t: TextView, maximum_width: Option<int>) -> int {
    wrap_lines(t.chars, t.char_widths, maximum_width).len() as int
}

/// The narrowest width `t` can be laid out in.
pub open spec fn text_minimum_width(t: TextView) -> int {
    or_zero(widest_char(t.chars, t.char_widths, t.chars.len() as int))
}

/// The width `t` takes unwrapped.
pub open spec fn text_preferred_width(t: TextView) -> int {
    or_zero(largest(t.line_widths, t.line_widths.len() as int))
}

impl MeasuredText {
    /// The empty text.
    pub fn empty() -> (r: MeasuredText)
        ensures
            r@.chars.len() == 0,
            r@.char_widths.len() == 0,
            r@.line_widths.len() == 0,
    {
        MeasuredText { chars: Vec::new(), char_widths: Vec::new(), line_widths: Vec::new() }
    }

    pub fn is_empty(&self) -> (r: bool)
        ensures
            r == (self@.chars.len() == 0),
    {
        self.chars.len() == 0
    }

    /// How many lines the text is drawn in, wrapped at `maximum_width`.
    pub fn line_count(&self, maximum_width: Option<i32>) -> (r: usize)
        requires
            text_wf(self@),
        ensures
            r == text_line_count(self@, opt_int(maximum_width)),
    {
        let lines = Font::wrap(&self.chars, &self.char_widths, maximum_width);
        proof {
            assert(lines@.map_values(|l: Vec<char>| l@).len() == lines@.len());
        }
        lines.len()
    }

    /// The narrowest width the text can be laid out in.
    pub fn minimum_width(&self) -> (r: i32)
        requires
            text_wf(self@),
        ensures
            r == text_minimum_width(self@),
    {
        Font::minimum_width(&self.chars, &self.char_widths)
    }

    /// The width the text takes unwrapped.
    pub fn preferred_width(&self) -> (r: i32)
        ensures
            r == text_preferred_width(self@),
    {
        Font::preferred_width(&self.line_widths)
    }
}

} // verus!
