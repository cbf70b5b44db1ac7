use vstd::prelude::*;

use crate::compiler::grammar::{adjusted_col, mk_pos};
use crate::compiler::SourcePosition;
use crate::text::{
    byte_offset, chars_of, find_sub, indent_of, range_eq, skip_ws, split_on,
    split_spans, string_of_range, strs_view, sub_chars, trim, trim_bounds,
};

verus! {

/// Number of leading whitespace characters of `line`.
pub fn get_indent(line: &str) -> (r: usize)
    ensures
        r == indent_of(line@),
{
    let cs = chars_of(line);
    skip_ws(cs.as_slice(), 0)
}

/// Whether `line` is indented deeper than `base_indent`.
pub fn is_indented_block(line: &str, base_indent: usize) -> (r: bool)
    ensures
        r == (indent_of(line@) > base_indent),
{
    get_indent(line) > base_indent
}

/// What [`extract_quoted_text`] returns: the first quoted piece and the last
/// one, or the first and an empty text when there is only one quote.
pub open spec fn quoted_text_spec(l: Seq<char>) -> Option<(Seq<char>, Seq<char>)> {
    let p = split_on(l, '"');
    if p.len() >= 3 {
        Some((p[1], p[p.len() - 2]))
    } else if p.len() >= 2 {
        Some((p[1], Seq::empty()))
    } else {
        None
    }
}

/// The text between the first pair of double quotes, and the text before the
/// last quote of the line.
pub fn extract_quoted_text(line: &str) -> (r: Option<(String, String)>)
    ensures
        match r {
            Some((a, b)) => quoted_text_spec(line@) == Some((a@, b@)),
            None => quoted_text_spec(line@) is None,
        },
{
    let cs = chars_of(line);
    let s = cs.as_slice();
    let p = split_spans(s, '"');
    let ghost texts = split_on(line@, '"');
    assert(texts.len() == p@.len());
    if p.len() >= 3 {
        let first = string_of_range(s, p[1].0, p[1].1);
        let k = p.len() - 2;
        let last = string_of_range(s, p[k].0, p[k].1);
        assert(texts[1] == s@.subrange(p@[1].0 as int, p@[1].1 as int));
        assert(texts[k as int] == s@.subrange(p@[k as int].0 as int, p@[k as int].1 as int));
        Some((first, last))
    } else if p.len() >= 2 {
        let first = string_of_range(s, p[1].0, p[1].1);
        assert(texts[1] == s@.subrange(p@[1].0 as int, p@[1].1 as int));
        let empty = String::new();
        Some((first, empty))
    } else {
        None
    }
}

/// The column of `pos` moved to where `part` first occurs in `line`
/// (`None` when that column does not fit in a `usize`).
pub fn adjusted_column(pos: SourcePosition, line: &[char], part: &[char]) -> (r: Option<usize>)
    ensures
        r == adjusted_col(pos, line@, part@),
{
    match find_sub(line, part) {
        None => Some(pos.column),
        Some(k) => {
            proof {
                lemma_find_sub_bound(line@, part@, 0);
            }
            match byte_offset(line, k) {
                None => None,
                Some(n) => pos.column.checked_add(n),
            }
        },
    }
}

pub proof fn lemma_find_sub_bound(s: Seq<char>, p: Seq<char>, k: int)
    requires
        0 <= k,
    ensures
        crate::text::find_sub_from(s, p, k) == -1 || (k <= crate::text::find_sub_from(s, p, k)
            && crate::text::find_sub_from(s, p, k) + p.len() <= s.len()),
    decreases s.len() - k,
{
    if k + p.len() <= s.len() && !(s.subrange(k, k + p.len()) =~= p) {
        lemma_find_sub_bound(s, p, k + 1);
    }
}

/// A position whose column is moved to where `part` first occurs in `line`.
pub fn adjusted_position(pos: SourcePosition, line: &str, part: &str) -> (r: SourcePosition)
    requires
        adjusted_col(pos, line@, part@) is Some,
    ensures
        r.line == pos.line,
        Some(r.column) == adjusted_col(pos, line@, part@),
{
    let l = chars_of(line);
    let p = chars_of(part);
    match adjusted_column(pos, l.as_slice(), p.as_slice()) {
        Some(c) => SourcePosition::new(pos.line, c),
        None => pos,
    }
}

/// The first line index at or after `i` whose indentation is not deeper than
/// `base` (or the number of lines).
pub open spec fn block_end(ls: Seq<Seq<char>>, i: int, base: int) -> int
    decreases ls.len() - i,
{
    if 0 <= i < ls.len() && indent_of(ls[i]) > base {
        block_end(ls, i + 1, base)
    } else {
        i
    }
}

pub proof fn lemma_block_end_bounds(ls: Seq<Seq<char>>, i: int, base: int)
    requires
        0 <= i <= ls.len(),
    ensures
        i <= block_end(ls, i, base) <= ls.len(),
    decreases ls.len() - i,
{
    if i < ls.len() && indent_of(ls[i]) > base {
        lemma_block_end_bounds(ls, i + 1, base);
    }
}

/// The end of the block of lines indented deeper than `base_indent` that
/// starts at `start_line`.
pub fn find_block_end(lines: &[String], start_line: usize, base_indent: usize) -> (r: usize)
    ensures
        r == block_end(strs_view(lines@), start_line as int, base_indent as int),
{
    let ghost ls = strs_view(lines@);
    let mut end_line = start_line;
    while end_line < lines.len() && get_indent(lines[end_line].as_str()) > base_indent
        invariant
            ls == strs_view(lines@),
            start_line <= end_line,
            block_end(ls, end_line as int, base_indent as int) == block_end(
                ls,
                start_line as int,
                base_indent as int,
            ),
        decreases lines@.len() - end_line,
    {
        end_line = end_line + 1;
    }
    proof {
        if end_line < lines@.len() {
            assert(ls[end_line as int] == lines@[end_line as int]@);
        }
    }
    end_line
}

/// Copies of the lines of the block that starts at `start_line`.
pub fn collect_block_lines(lines: &[String], start_line: usize, base_indent: usize) -> (r: Vec<
    String,
>)
    requires
        start_line <= lines@.len(),
    ensures
        strs_view(r@) == strs_view(lines@).subrange(
            start_line as int,
            block_end(strs_view(lines@), start_line as int, base_indent as int),
        ),
{
    let end_line = find_block_end(lines, start_line, base_indent);
    proof {
        lemma_block_end_bounds(strs_view(lines@), start_line as int, base_indent as int);
    }
    let mut r: Vec<String> = Vec::new();
    let mut k = start_line;
    while k < end_line
        invariant
            start_line <= k <= end_line <= lines@.len(),
            strs_view(r@) =~= strs_view(lines@).subrange(start_line as int, k as int),
        decreases end_line - k,
    {
        let c = lines[k].clone();
        let ghost old_r = r@;
        r.push(c);
        assert(strs_view(r@) =~= strs_view(old_r).push(lines@[k as int]@));
        k = k + 1;
    }
    r
}


/// `s[lo..hi]`, trimmed, as a string.
pub fn trimmed_string(s: &[char], lo: usize, hi: usize) -> (r: String)
    requires
        lo <= hi <= s@.len(),
    ensures
        r@ == trim(s@.subrange(lo as int, hi as int)),
{
    let v = sub_chars(s, lo, hi);
    let (a, b) = trim_bounds(v.as_slice());
    string_of_range(v.as_slice(), a, b)
}

/// Whether `s[lo..hi]` is the word `w`.
pub fn word_is(s: &[char], lo: usize, hi: usize, w: &str) -> (r: bool)
    requires
        lo <= hi <= s@.len(),
    ensures
        r == (s@.subrange(lo as int, hi as int) == w@),
{
    let wc = chars_of(w);
    range_eq(s, lo, hi, wc.as_slice())
}

/// Whether `s[lo..hi]` begins with `w`.
pub fn range_begins(s: &[char], lo: usize, hi: usize, w: &str) -> (r: bool)
    requires
        lo <= hi <= s@.len(),
    ensures
        r == crate::text::starts_with(s@.subrange(lo as int, hi as int), w@),
{
    let wc = chars_of(w);
    crate::text::range_starts_with(s, lo, hi, wc.as_slice())
}

/// Whether `s[lo..hi]` ends with `w`.
pub fn range_finishes(s: &[char], lo: usize, hi: usize, w: &str) -> (r: bool)
    requires
        lo <= hi <= s@.len(),
    ensures
        r == crate::text::ends_with(s@.subrange(lo as int, hi as int), w@),
{
    let wc = chars_of(w);
    crate::text::range_ends_with(s, lo, hi, wc.as_slice())
}

/// The position `(a + b, c + 1)`, unless a number overflows.
pub fn pos_at(a: usize, b: usize, c: usize) -> (r: Option<SourcePosition>)
    ensures
        r == mk_pos(a + b, c + 1),
{
    match a.checked_add(b) {
        None => None,
        Some(l) => match c.checked_add(1) {
            None => None,
            Some(col) => Some(SourcePosition::new(l, col)),
        },
    }
}

} // verus!
