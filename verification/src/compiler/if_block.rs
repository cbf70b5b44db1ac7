use vstd::prelude::*;

use crate::compiler::common::{get_indent, pos_at, word_is};
use crate::compiler::grammar::sp_if;
use crate::compiler::line_parser::{parse_block, stmt_result};
use crate::compiler::{CompilerError, SourcePosition};
use crate::ops::{lemma_ops_model_empty, Op};
use crate::text::{chars_of, lemma_trim_bounds, strs_view, trim_bounds};

verus! {

/// Parses an `if:` block at `*current_line` together with an `else:` block
/// that follows it.  On success `*current_line` is the first line after them.
pub fn parse_if_block(lines: &[String], current_line: &mut usize, pos: SourcePosition) -> (r:
    Result<Op, CompilerError>)
    requires
        !(sp_if(strs_view(lines@), *old(current_line) as int, pos) is Panic),
    ensures
        stmt_result(r, *final(current_line), sp_if(strs_view(lines@), *old(current_line) as int, pos)),
        r is Ok ==> *old(current_line) < *final(current_line) <= lines@.len(),
    decreases lines@.len() - *old(current_line), 1int,
{
    let ghost ls = strs_view(lines@);
    proof {
        crate::text::lemma_strs_view(lines@);
    }
    let n_lines = lines.len();
    let ghost i = *current_line as int;
    assert(ls[i] == lines@[i]@);
    let current_indent = get_indent(lines[*current_line].as_str());
    *current_line = *current_line + 1;
    let then_block = match parse_block(lines, current_line, current_indent, pos) {
        Ok(v) => v,
        Err(e) => {
            return Err(e);
        },
    };
    let ghost j = *current_line as int;
    if *current_line < lines.len() {
        let cs = chars_of(lines[*current_line].as_str());
        assert(ls[j] == lines@[j]@);
        proof {
            lemma_trim_bounds(cs@);
        }
        let (a, b) = trim_bounds(cs.as_slice());
        if word_is(cs.as_slice(), a, b, "else:") {
            let else_indent = get_indent(lines[*current_line].as_str());
            let else_pos = match pos_at(pos.line, *current_line, else_indent) {
                Some(p) => p,
                None => {
                    return Err(CompilerError::UnexpectedEOF(0));
                },
            };
            *current_line = *current_line + 1;
            let else_ops = match parse_block(lines, current_line, current_indent, else_pos) {
                Ok(v) => v,
                Err(e) => {
                    return Err(e);
                },
            };
            let condition: Vec<Op> = Vec::new();
            proof {
                lemma_ops_model_empty();
            }
            return Ok(Op::If { condition, then: then_block, else_: Some(else_ops) });
        }
    }
    let condition: Vec<Op> = Vec::new();
    proof {
        lemma_ops_model_empty();
    }
    Ok(Op::If { condition, then: then_block, else_: None })
}

} // verus!
