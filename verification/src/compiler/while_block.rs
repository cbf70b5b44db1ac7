use vstd::prelude::*;

use crate::compiler::common::{pos_at, range_finishes, word_is};
use crate::compiler::grammar::{sp_while, sp_while_items, while_op, Outcome, WhileAcc};
use crate::compiler::line_parser::{parse_block, parse_line, stmt_result};
use crate::compiler::{CompilerError, SourcePosition};
use crate::ops::{lemma_ops_model_empty, lemma_ops_model_push, ops_model, push_unless_nop, Op};
use crate::text::{chars_of, lemma_trim_bounds, skip_ws, strs_view, trim_bounds};

verus! {

/// What a `while:` block has gathered, as the grammar sees it.
pub open spec fn while_acc(has_condition: bool, condition: Seq<Op>, body: Seq<Op>) -> WhileAcc {
    WhileAcc {
        condition: if has_condition {
            Some(ops_model(condition))
        } else {
            None
        },
        body: ops_model(body),
    }
}

/// Parses a `while:` block at `*current_line`.  A `condition:` block gives the
/// loop condition; without one, the first statement of the body is the
/// condition.  On success `*current_line` is the first line after the block.
pub fn parse_while_block(lines: &[String], current_line: &mut usize, pos: SourcePosition) -> (r:
    Result<Op, CompilerError>)
    requires
        !(sp_while(strs_view(lines@), *old(current_line) as int, pos) is Panic),
    ensures
        stmt_result(
            r,
            *final(current_line),
            sp_while(strs_view(lines@), *old(current_line) as int, pos),
        ),
        r is Ok ==> *old(current_line) < *final(current_line) <= lines@.len(),
    decreases lines@.len() - *old(current_line), 1int,
{
    let ghost ls = strs_view(lines@);
    proof {
        crate::text::lemma_strs_view(lines@);
    }
    let n_lines = lines.len();
    let ghost i = *current_line as int;
    assert(ls[i] == lines@[i]@);
    let current_indent = get_indent_of(lines, *current_line);
    let ghost ind = current_indent as int;
    *current_line = *current_line + 1;
    let mut condition: Vec<Op> = Vec::new();
    let mut has_condition = false;
    let mut body: Vec<Op> = Vec::new();
    proof {
        lemma_ops_model_empty();
    }
    let ghost init = WhileAcc { condition: None, body: seq![] };
    assert(while_acc(has_condition, condition@, body@) == init);
    loop
        invariant
            ls == strs_view(lines@),
            i < *current_line <= lines@.len(),
            ind == indent_of_line(ls, i),
            ind == current_indent as int,
            i == *old(current_line) as int,
            !has_condition ==> condition@.len() == 0,
            init == (WhileAcc { condition: None, body: seq![] }),
            sp_while_items(ls, i + 1, ind, pos, init) == sp_while_items(
                ls,
                *current_line as int,
                ind,
                pos,
                while_acc(has_condition, condition@, body@),
            ),
            !(sp_while_items(ls, i + 1, ind, pos, init) is Panic),
        ensures
            i < *current_line <= lines@.len(),
            !has_condition ==> condition@.len() == 0,
            sp_while_items(ls, i + 1, ind, pos, init) == Outcome::Done(
                (while_acc(has_condition, condition@, body@), *current_line as int),
            ),
        decreases lines@.len() - *current_line,
    {
        if *current_line >= lines.len() {
            break;
        }
        let ghost k = *current_line as int;
        let line = lines[*current_line].as_str();
        assert(ls[k] == line@);
        let cs = chars_of(line);
        let s = cs.as_slice();
        let indent = skip_ws(s, 0);
        if indent <= current_indent {
            break;
        }
        let p = match pos_at(pos.line, *current_line, indent) {
            Some(p) => p,
            None => {
                return Err(CompilerError::UnexpectedEOF(0));
            },
        };
        proof {
            lemma_trim_bounds(s@);
        }
        let (a, b) = trim_bounds(s);
        if word_is(s, a, b, "condition:") {
            *current_line = *current_line + 1;
            let c = match parse_block(lines, current_line, indent, p) {
                Ok(v) => v,
                Err(e) => {
                    return Err(e);
                },
            };
            condition = c;
            has_condition = true;
        } else if range_finishes(s, a, b, ":") {
            match crate::compiler::line_parser::parse_nested_block(lines, current_line, p, s, a, b) {
                Ok(op) => {
                    let ghost old_body = body@;
                    body.push(op);
                    proof {
                        lemma_ops_model_push(old_body, op);
                    }
                },
                Err(e) => {
                    return Err(e);
                },
            }
        } else {
            match parse_line(line, p) {
                Ok(op) => {
                    push_unless_nop(&mut body, op);
                    *current_line = *current_line + 1;
                },
                Err(e) => {
                    return Err(e);
                },
            }
        }
    }
    let ghost acc = while_acc(has_condition, condition@, body@);
    if !has_condition && body.len() > 0 {
        let ghost old_body = body@;
        let first = body.remove(0);
        let mut c: Vec<Op> = Vec::new();
        c.push(first);
        proof {
            lemma_ops_model_push(Seq::<Op>::empty(), first);
            assert(Seq::<Op>::empty().push(first) =~= seq![first]);
            assert(ops_model(body@) =~= ops_model(old_body).skip(1));
            assert(ops_model(c@) =~= seq![ops_model(old_body)[0]]);
        }
        condition = c;
        assert(while_op(acc) == crate::ops::op_model(Op::While { condition, body }));
        return Ok(Op::While { condition, body });
    }
    assert(!has_condition ==> ops_model(condition@) =~= Seq::<crate::ops::OpModel>::empty());
    Ok(Op::While { condition, body })
}

/// The indentation of line `i`.
pub open spec fn indent_of_line(ls: Seq<Seq<char>>, i: int) -> int {
    crate::text::indent_of(ls[i])
}

fn get_indent_of(lines: &[String], i: usize) -> (r: usize)
    requires
        i < lines@.len(),
    ensures
        r == indent_of_line(strs_view(lines@), i as int),
{
    assert(strs_view(lines@)[i as int] == lines@[i as int]@);
    crate::compiler::common::get_indent(lines[i].as_str())
}

} // verus!
