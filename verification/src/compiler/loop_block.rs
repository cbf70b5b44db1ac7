use vstd::prelude::*;

use crate::compiler::common::adjusted_column;
use crate::text::sub_chars;
use crate::compiler::grammar::{loop_header_ok, sp_loop};
use crate::compiler::line_parser::{parse_block, stmt_result};
use crate::compiler::{CompilerError, SourcePosition};
use crate::numeric::parse_usize_range;
use crate::ops::Op;
use crate::text::{
    chars_of, find_char_from, lemma_back_char_bounds, lemma_find_from_bounds, lemma_trim_bounds,
    range_eq_ascii_nocase, skip_char_back, skip_ws, string_of, strs_view, trim_bounds,
};

verus! {

/// Parses a counted loop `loop N:` at `*current_line` and its indented body.
/// On success `*current_line` is the first line after it; when the header
/// itself is refused it stays where it was.
pub fn parse_loop_block(lines: &[String], current_line: &mut usize, pos: SourcePosition) -> (r:
    Result<Op, CompilerError>)
    requires
        !(sp_loop(strs_view(lines@), *old(current_line) as int, pos) is Panic),
    ensures
        stmt_result(
            r,
            *final(current_line),
            sp_loop(strs_view(lines@), *old(current_line) as int, pos),
        ),
        r is Ok ==> *old(current_line) < *final(current_line) <= lines@.len(),
        !loop_header_ok(strs_view(lines@)[*old(current_line) as int]) ==> (r is Err && *final(current_line)
            == *old(current_line)),
    decreases lines@.len() - *old(current_line), 1int,
{
    let ghost ls = strs_view(lines@);
    proof {
        crate::text::lemma_strs_view(lines@);
    }
    let n_lines = lines.len();
    let ghost i = *current_line as int;
    let line = lines[*current_line].as_str();
    assert(ls[i] == line@);
    let cs = chars_of(line);
    let s = cs.as_slice();
    proof {
        lemma_trim_bounds(s@);
    }
    let (a, b) = trim_bounds(s);
    let t = sub_chars(s, a, b);
    proof {
        lemma_find_from_bounds(t@, ' ', 0);
    }
    let k = find_char_from(t.as_slice(), ' ', 0);
    let word = chars_of("loop");
    if k >= t.len() || !range_eq_ascii_nocase(t.as_slice(), 0, k, word.as_slice()) {
        return Err(CompilerError::InvalidLoopFormat(string_of(t.as_slice()), pos.line, pos.column));
    }
    assert(t@.subrange(0, k as int) =~= t@.take(k as int));
    let rest = sub_chars(t.as_slice(), k + 1, t.len());
    assert(rest@ =~= t@.skip(k + 1));
    proof {
        lemma_back_char_bounds(rest@, ':', rest@.len() as int, 0);
    }
    let e = skip_char_back(rest.as_slice(), ':', rest.len(), 0);
    let count_text = sub_chars(rest.as_slice(), 0, e);
    assert(count_text@ =~= crate::text::trim_end_char(rest@, ':'));
    assert(rest@.subrange(0, e as int) =~= count_text@);
    let count = match parse_usize_range(rest.as_slice(), 0, e) {
        Some(c) => c,
        None => {
            match adjusted_column(pos, s, count_text.as_slice()) {
                Some(col) => {
                    return Err(
                        CompilerError::InvalidLoopCount(
                            string_of(count_text.as_slice()),
                            pos.line,
                            col,
                        ),
                    );
                },
                None => {
                    return Err(CompilerError::UnexpectedEOF(0));
                },
            }
        },
    };
    let current_indent = skip_ws(s, 0);
    *current_line = *current_line + 1;
    let body = match parse_block(lines, current_line, current_indent, pos) {
        Ok(v) => v,
        Err(e) => {
            return Err(e);
        },
    };
    Ok(Op::Loop { count, body })
}

} // verus!
