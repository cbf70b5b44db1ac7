use vstd::prelude::*;

use crate::compiler::common::{adjusted_column, pos_at, range_begins, word_is};
use crate::text::sub_chars;
use crate::compiler::grammar::{
    case_value_text, match_add, sp_match, sp_match_items, MatchAcc, Outcome,
};
use crate::compiler::line_parser::{parse_block, parse_line, stmt_result};
use crate::compiler::{CompilerError, SourcePosition};
use crate::numeric::float_literal_ok;
use crate::ops::{
    cases_model, lemma_ops_model_empty, ops_model, push_unless_nop, Op, OpModel,
};
use crate::text::{
    chars_of, lemma_back_char_bounds, lemma_trim_bounds, skip_char_back, skip_ws, string_of,
    strs_view, trim_bounds,
};

verus! {

/// What a `match:` block has gathered, as the grammar sees it.
pub open spec fn match_acc(
    value: Seq<Op>,
    cases: Seq<(String, Vec<Op>)>,
    default: Option<Vec<Op>>,
) -> MatchAcc {
    MatchAcc {
        value: ops_model(value),
        cases: cases_model(cases),
        default: match default {
            Some(d) => Some(ops_model(d@)),
            None => None,
        },
    }
}

/// The text of the case value on a trimmed `case V:` line `t`.
fn case_text(t: &[char]) -> (r: Vec<char>)
    requires
        t@.len() >= 5,
    ensures
        r@ == case_value_text(t@),
{
    let v = sub_chars(t, 5, t.len());
    assert(v@ =~= t@.skip(5));
    proof {
        lemma_trim_bounds(v@);
    }
    let (a, b) = trim_bounds(v.as_slice());
    let w = sub_chars(v.as_slice(), a, b);
    proof {
        lemma_back_char_bounds(w@, ':', w@.len() as int, 0);
    }
    let e = skip_char_back(w.as_slice(), ':', w.len(), 0);
    let r = sub_chars(w.as_slice(), 0, e);
    assert(r@ =~= crate::text::trim_end_char(w@, ':'));
    r
}

/// Parses a `match:` block at `*current_line`: a `value:` block (or plain
/// statements) computing the value, `case V:` blocks and a `default:` block.
/// On success `*current_line` is the first line after the block.
pub fn parse_match_block(lines: &[String], current_line: &mut usize, pos: SourcePosition) -> (r:
    Result<Op, CompilerError>)
    requires
        !(sp_match(strs_view(lines@), *old(current_line) as int, pos) is Panic),
    ensures
        stmt_result(
            r,
            *final(current_line),
            sp_match(strs_view(lines@), *old(current_line) as int, pos),
        ),
        r is Ok ==> *old(current_line) < *final(current_line) <= lines@.len(),
    decreases lines@.len() - *old(current_line), 1int,
{
    let ghost ls = strs_view(lines@);
    proof {
        crate::text::lemma_strs_view(lines@);
    }
    let n_lines = lines.len();
    let ghost i = *current_line as int;
    assert(ls[i] == lines@[i]@);
    let current_indent = crate::compiler::common::get_indent(lines[*current_line].as_str());
    let ghost ind = current_indent as int;
    *current_line = *current_line + 1;
    let mut value: Vec<Op> = Vec::new();
    let mut cases: Vec<(String, Vec<Op>)> = Vec::new();
    let mut default: Option<Vec<Op>> = None;
    proof {
        lemma_ops_model_empty();
    }
    let ghost init = MatchAcc { value: seq![], cases: seq![], default: None };
    assert(cases_model(cases@) =~= Seq::<(Seq<char>, Seq<OpModel>)>::empty());
    assert(match_acc(value@, cases@, default) == init);
    loop
        invariant
            ls == strs_view(lines@),
            i < *current_line <= lines@.len(),
            ind == crate::text::indent_of(ls[i]),
            ind == current_indent as int,
            i == *old(current_line) as int,
            init == (MatchAcc { value: seq![], cases: seq![], default: None }),
            sp_match_items(ls, i + 1, ind, pos, init) == sp_match_items(
                ls,
                *current_line as int,
                ind,
                pos,
                match_acc(value@, cases@, default),
            ),
            !(sp_match_items(ls, i + 1, ind, pos, init) is Panic),
        ensures
            i < *current_line <= lines@.len(),
            sp_match_items(ls, i + 1, ind, pos, init) == Outcome::Done(
                (match_acc(value@, cases@, default), *current_line as int),
            ),
        decreases lines@.len() - *current_line,
    {
        if *current_line >= lines.len() {
            break;
        }
        let ghost k = *current_line as int;
        let line = lines[*current_line].as_str();
        assert(ls[k] == line@);
        let cs = chars_of(line);
        let s = cs.as_slice();
        let indent = skip_ws(s, 0);
        if indent <= current_indent {
            break;
        }
        let lp = match pos_at(pos.line, *current_line, indent) {
            Some(p) => p,
            None => {
                return Err(CompilerError::UnexpectedEOF(0));
            },
        };
        proof {
            lemma_trim_bounds(s@);
        }
        let (a, b) = trim_bounds(s);
        let t = sub_chars(s, a, b);
        let ts = t.as_slice();
        let is_value = word_is(ts, 0, ts.len(), "value:");
        let is_default = word_is(ts, 0, ts.len(), "default:");
        let is_case = range_begins(ts, 0, ts.len(), "case ");
        proof {
            reveal_strlit("case ");
        }
        assert(ts@.subrange(0, ts@.len() as int) =~= ts@);
        let mut case_ok = false;
        let mut ctext: Vec<char> = Vec::new();
        if is_case {
            ctext = case_text(ts);
            case_ok = float_literal_ok(ctext.as_slice(), 0, ctext.len());
            assert(ctext@.subrange(0, ctext@.len() as int) =~= ctext@);
        }
        if is_value || is_default || (is_case && case_ok) {
            let bp = match pos_at(lp.line, 1, indent) {
                Some(p) => p,
                None => {
                    return Err(CompilerError::UnexpectedEOF(0));
                },
            };
            *current_line = *current_line + 1;
            let ops = match parse_block(lines, current_line, indent, bp) {
                Ok(v) => v,
                Err(e) => {
                    return Err(e);
                },
            };
            let ghost before = match_acc(value@, cases@, default);
            if is_value {
                value = ops;
            } else if is_default {
                default = Some(ops);
            } else {
                let ghost old_cases = cases@;
                let text = string_of(ctext.as_slice());
                cases.push((text, ops));
                assert(cases_model(cases@) =~= cases_model(old_cases).push(
                    (case_value_text(ts@), ops_model(ops@)),
                ));
            }
            assert(match_acc(value@, cases@, default) == match_add(before, ts@, ops_model(ops@)));
        } else if is_case {
            match adjusted_column(lp, s, ctext.as_slice()) {
                Some(c) => {
                    return Err(
                        CompilerError::InvalidCaseValue(string_of(ctext.as_slice()), lp.line, c),
                    );
                },
                None => {
                    return Err(CompilerError::UnexpectedEOF(0));
                },
            }
        } else {
            match parse_line(line, lp) {
                Ok(op) => {
                    push_unless_nop(&mut value, op);
                    *current_line = *current_line + 1;
                },
                Err(e) => {
                    return Err(e);
                },
            }
        }
    }
    if value.len() == 0 {
        return Err(
            CompilerError::SyntaxError(
                String::from_str("Expected value block in match statement"),
                pos,
            ),
        );
    }
    Ok(Op::Match { value, cases, default })
}

} // verus!
