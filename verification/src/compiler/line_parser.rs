use vstd::prelude::*;

use crate::compiler::common::{
    adjusted_column, pos_at, range_begins, range_finishes, trimmed_string, word_is,
};
use crate::compiler::{
    function_block::parse_function_block, if_block::parse_if_block, loop_block::parse_loop_block,
    match_block::parse_match_block, while_block::parse_while_block,
};
use crate::compiler::grammar::{simple_op, sp_block, sp_line, sp_nested, sp_stmt, Outcome};
use crate::compiler::{err_model, CompilerError, SourcePosition};
use crate::numeric::{float_literal_ok, parse_usize_range};
use crate::text::sub_chars;
use crate::ops::{lemma_ops_model_empty, op_model, ops_model, push_unless_nop, Op, OpModel};
use crate::text::{
    chars_of, find_char_from, lemma_find_from_bounds, lemma_rfind_bounds, lemma_trim_bounds,
    rfind_char, skip_ws, split_spans, string_of, string_of_range, strs_view, token_spans, tokens,
    trim_bounds,
};

verus! {

/// How an executable result stands to what the grammar says.
pub open spec fn line_result(r: Result<Op, CompilerError>, o: Outcome<OpModel>) -> bool {
    match r {
        Ok(op) => o == Outcome::Done(op_model(op)),
        Err(e) => o == Outcome::<OpModel>::Fail(err_model(e)),
    }
}

/// How an executable block result stands to what the grammar says.
pub open spec fn block_result(
    r: Result<Vec<Op>, CompilerError>,
    end: usize,
    o: Outcome<(Seq<OpModel>, int)>,
) -> bool {
    match r {
        Ok(ops) => o == Outcome::Done((ops_model(ops@), end as int)),
        Err(e) => o == Outcome::<(Seq<OpModel>, int)>::Fail(err_model(e)),
    }
}

/// How an executable block-statement result stands to what the grammar says.
pub open spec fn stmt_result(
    r: Result<Op, CompilerError>,
    end: usize,
    o: Outcome<(OpModel, int)>,
) -> bool {
    match r {
        Ok(op) => o == Outcome::Done((op_model(op), end as int)),
        Err(e) => o == Outcome::<(OpModel, int)>::Fail(err_model(e)),
    }
}

/// The instruction of a single word, if it is one of them.
pub(crate) fn simple_op_of(s: &[char], lo: usize, hi: usize) -> (r: Option<Op>)
    requires
        lo <= hi <= s@.len(),
    ensures
        match r {
            Some(op) => simple_op(s@.subrange(lo as int, hi as int)) == Some(op_model(op)),
            None => simple_op(s@.subrange(lo as int, hi as int)) is None,
        },
{
    if word_is(s, lo, hi, "add") {
        Some(Op::Add)
    } else if word_is(s, lo, hi, "sub") {
        Some(Op::Sub)
    } else if word_is(s, lo, hi, "mul") {
        Some(Op::Mul)
    } else if word_is(s, lo, hi, "div") {
        Some(Op::Div)
    } else if word_is(s, lo, hi, "mod") {
        Some(Op::Mod)
    } else if word_is(s, lo, hi, "eq") {
        Some(Op::Eq)
    } else if word_is(s, lo, hi, "gt") {
        Some(Op::Gt)
    } else if word_is(s, lo, hi, "lt") {
        Some(Op::Lt)
    } else if word_is(s, lo, hi, "not") {
        Some(Op::Not)
    } else if word_is(s, lo, hi, "and") {
        Some(Op::And)
    } else if word_is(s, lo, hi, "or") {
        Some(Op::Or)
    } else if word_is(s, lo, hi, "negate") {
        Some(Op::Negate)
    } else if word_is(s, lo, hi, "dup") {
        Some(Op::Dup)
    } else if word_is(s, lo, hi, "swap") {
        Some(Op::Swap)
    } else if word_is(s, lo, hi, "over") {
        Some(Op::Over)
    } else if word_is(s, lo, hi, "pop") {
        Some(Op::Pop)
    } else if word_is(s, lo, hi, "return") {
        Some(Op::Return)
    } else if word_is(s, lo, hi, "dumpstack") {
        Some(Op::DumpStack)
    } else if word_is(s, lo, hi, "dumpmemory") {
        Some(Op::DumpMemory)
    } else if word_is(s, lo, hi, "dumpstate") {
        Some(Op::DumpState)
    } else {
        None
    }
}

/// `prefix` followed by the text of `s[lo..hi]`.
fn message_with(prefix: &str, s: &[char], lo: usize, hi: usize) -> (r: String)
    requires
        lo <= hi <= s@.len(),
    ensures
        r@ == prefix@ + s@.subrange(lo as int, hi as int),
{
    let mut v = chars_of(prefix);
    let mut k = lo;
    while k < hi
        invariant
            lo <= k <= hi <= s@.len(),
            v@ =~= prefix@ + s@.subrange(lo as int, k as int),
        decreases hi - k,
    {
        v.push(s[k]);
        k = k + 1;
    }
    string_of(v.as_slice())
}

/// Parses a single line of DSL code into the instruction it stands for.
/// Comments and empty lines give [`Op::Nop`].
pub fn parse_line(line: &str, pos: SourcePosition) -> (r: Result<Op, CompilerError>)
    requires
        !(sp_line(line@, pos) is Panic),
    ensures
        line_result(r, sp_line(line@, pos)),
{
    let cs = chars_of(line);
    let s = cs.as_slice();
    let ghost l = line@;
    proof {
        lemma_trim_bounds(l);
    }
    let (a, b) = trim_bounds(s);
    if range_begins(s, a, b, "#") {
        return Ok(Op::Nop);
    }
    let t = token_spans(s);
    let ghost tk = tokens(l);
    assert(tk.len() == t@.len());
    if t.len() == 0 {
        return Ok(Op::Nop);
    }
    let (c0, c1) = t[0];
    assert(tk[0] == s@.subrange(c0 as int, c1 as int));
    if t.len() >= 2 {
        assert(tk[1] == s@.subrange(t@[1].0 as int, t@[1].1 as int));
    }
    if t.len() >= 3 {
        assert(tk[2] == s@.subrange(t@[2].0 as int, t@[2].1 as int));
    }
    if word_is(s, c0, c1, "push") {
        if t.len() < 2 {
            return Err(CompilerError::MissingPushValue(pos.line, pos.column));
        }
        let (n0, n1) = t[1];
        if float_literal_ok(s, n0, n1) {
            return Ok(Op::Push(string_of_range(s, n0, n1)));
        }
        let part = sub_chars(s, n0, n1);
        match adjusted_column(pos, s, part.as_slice()) {
            Some(c) => {
                return Err(
                    CompilerError::InvalidPushValue(string_of_range(s, n0, n1), pos.line, c),
                );
            },
            None => {
                return Ok(Op::Nop);
            },
        }
    } else if word_is(s, c0, c1, "emit") {
        proof {
            lemma_find_from_bounds(l, '"', 0);
            lemma_rfind_bounds(l, '"', l.len() as int);
        }
        let f = find_char_from(s, '"', 0);
        if f >= s.len() {
            return Err(CompilerError::MissingEmitQuotes(pos.line, pos.column));
        }
        match rfind_char(s, '"') {
            Some(r) => {
                if r < f + 1 {
                    return Ok(Op::Nop);
                }
                return Ok(Op::Emit(string_of_range(s, f + 1, r)));
            },
            None => {
                return Ok(Op::Nop);
            },
        }
    } else if word_is(s, c0, c1, "emitevent") {
        let p = split_spans(s, '"');
        let ghost ps = crate::text::split_on(l, '"');
        assert(ps.len() == p@.len());
        if p.len() < 5 {
            return Err(CompilerError::InvalidEmitEventFormat(pos.line, pos.column));
        }
        assert(ps[1] == s@.subrange(p@[1].0 as int, p@[1].1 as int));
        assert(ps[3] == s@.subrange(p@[3].0 as int, p@[3].1 as int));
        let category = trimmed_string(s, p[1].0, p[1].1);
        let message = trimmed_string(s, p[3].0, p[3].1);
        return Ok(Op::EmitEvent { category, message });
    } else if word_is(s, c0, c1, "assertequalstack") {
        if t.len() < 2 {
            return Err(CompilerError::MissingAssertDepth(pos.line, pos.column));
        }
        let (n0, n1) = t[1];
        match parse_usize_range(s, n0, n1) {
            None => {
                let part = sub_chars(s, n0, n1);
                match adjusted_column(pos, s, part.as_slice()) {
                    Some(c) => {
                        return Err(
                            CompilerError::InvalidAssertDepth(
                                string_of_range(s, n0, n1),
                                pos.line,
                                c,
                            ),
                        );
                    },
                    None => {
                        return Ok(Op::Nop);
                    },
                }
            },
            Some(d) => {
                if d < 2 {
                    return Err(CompilerError::InsufficientAssertDepth(pos.line, pos.column));
                }
                return Ok(Op::AssertEqualStack { depth: d });
            },
        }
    } else if word_is(s, c0, c1, "break") {
        return Ok(Op::Break);
    } else if word_is(s, c0, c1, "continue") {
        return Ok(Op::Continue);
    } else if word_is(s, c0, c1, "load") || word_is(s, c0, c1, "store") {
        if t.len() < 2 {
            return Err(
                CompilerError::MissingVariable(string_of_range(s, c0, c1), pos.line, pos.column),
            );
        }
        let (n0, n1) = t[1];
        if word_is(s, c0, c1, "load") {
            return Ok(Op::Load(string_of_range(s, n0, n1)));
        }
        return Ok(Op::Store(string_of_range(s, n0, n1)));
    } else if word_is(s, c0, c1, "call") {
        if t.len() < 2 {
            return Err(CompilerError::MissingFunctionName(pos.line, pos.column));
        }
        let (n0, n1) = t[1];
        return Ok(Op::Call(string_of_range(s, n0, n1)));
    } else if word_is(s, c0, c1, "rankedvote") {
        if t.len() < 2 {
            return Err(
                CompilerError::InvalidFunctionFormat(
                    String::from_str("rankedvote requires 'candidates' parameter"),
                    pos.line,
                    pos.column,
                ),
            );
        }
        if t.len() < 3 {
            return Err(
                CompilerError::InvalidFunctionFormat(
                    String::from_str("rankedvote requires 'ballots' parameter"),
                    pos.line,
                    pos.column,
                ),
            );
        }
        let (n0, n1) = t[1];
        let (m0, m1) = t[2];
        match parse_usize_range(s, n0, n1) {
            None => {
                return Err(
                    CompilerError::InvalidFunctionFormat(
                        message_with("Invalid candidates count: ", s, n0, n1),
                        pos.line,
                        pos.column,
                    ),
                );
            },
            Some(c) => match parse_usize_range(s, m0, m1) {
                None => {
                    return Err(
                        CompilerError::InvalidFunctionFormat(
                            message_with("Invalid ballots count: ", s, m0, m1),
                            pos.line,
                            pos.column,
                        ),
                    );
                },
                Some(bl) => {
                    return Ok(Op::RankedVote { candidates: c, ballots: bl });
                },
            },
        }
    } else if word_is(s, c0, c1, "liquiddelegate") {
        if t.len() < 2 {
            return Err(
                CompilerError::InvalidFunctionFormat(
                    String::from_str("liquiddelegate requires 'from' parameter"),
                    pos.line,
                    pos.column,
                ),
            );
        }
        if t.len() < 3 {
            return Err(
                CompilerError::InvalidFunctionFormat(
                    String::from_str("liquiddelegate requires 'to' parameter"),
                    pos.line,
                    pos.column,
                ),
            );
        }
        let (n0, n1) = t[1];
        let (m0, m1) = t[2];
        return Ok(
            Op::LiquidDelegate {
                from: string_of_range(s, n0, n1),
                to: string_of_range(s, m0, m1),
            },
        );
    } else if word_is(s, c0, c1, "votethreshold") {
        if t.len() < 2 {
            return Err(
                CompilerError::InvalidFunctionFormat(
                    String::from_str("votethreshold requires threshold parameter"),
                    pos.line,
                    pos.column,
                ),
            );
        }
        let (n0, n1) = t[1];
        if float_literal_ok(s, n0, n1) {
            return Ok(Op::VoteThreshold(string_of_range(s, n0, n1)));
        }
        return Err(
            CompilerError::InvalidFunctionFormat(
                message_with("Invalid threshold value: ", s, n0, n1),
                pos.line,
                pos.column,
            ),
        );
    } else {
        match simple_op_of(s, c0, c1) {
            Some(op) => {
                return Ok(op);
            },
            None => {
                return Err(
                    CompilerError::UnknownCommand(string_of_range(s, c0, c1), pos.line, pos.column),
                );
            },
        }
    }
}

/// Parses the statements of an indented block that starts at `*start_line`:
/// every following line indented deeper than `base_indent` (blank lines
/// included), nested blocks parsed by their own parsers.  On success
/// `*start_line` is the first line after the block.
pub fn parse_block(
    lines: &[String],
    start_line: &mut usize,
    base_indent: usize,
    pos: SourcePosition,
) -> (r: Result<Vec<Op>, CompilerError>)
    requires
        !(sp_block(strs_view(lines@), *old(start_line) as int, base_indent as int, pos, seq![])
            is Panic),
    ensures
        block_result(
            r,
            *final(start_line),
            sp_block(strs_view(lines@), *old(start_line) as int, base_indent as int, pos, seq![]),
        ),
        r is Ok ==> *old(start_line) <= *final(start_line),
        r is Ok && *old(start_line) <= lines@.len() ==> *final(start_line) <= lines@.len(),
    decreases lines@.len() - *old(start_line), 4int,
{
    let ghost ls = strs_view(lines@);
    proof {
        crate::text::lemma_strs_view(lines@);
    }
    let n_lines = lines.len();
    let ghost i0 = *start_line as int;
    let mut block_ops: Vec<Op> = Vec::new();
    proof {
        lemma_ops_model_empty();
    }
    while *start_line < lines.len()
        invariant
            ls == strs_view(lines@),
            i0 == *old(start_line) as int,
            i0 <= *start_line,
            i0 <= lines@.len() ==> *start_line <= lines@.len(),
            sp_block(ls, i0, base_indent as int, pos, seq![]) == sp_block(
                ls,
                *start_line as int,
                base_indent as int,
                pos,
                ops_model(block_ops@),
            ),
            !(sp_block(ls, i0, base_indent as int, pos, seq![]) is Panic),
        decreases lines@.len() - *start_line,
    {
        let ghost i = *start_line as int;
        let line = lines[*start_line].as_str();
        assert(ls[i] == line@);
        let cs = chars_of(line);
        let s = cs.as_slice();
        proof {
            lemma_trim_bounds(line@);
        }
        let indent = skip_ws(s, 0);
        let (a, b) = trim_bounds(s);
        if a != b && indent <= base_indent {
            return Ok(block_ops);
        } else if a == b {
            *start_line = *start_line + 1;
            continue;
        }
        let cur = match pos_at(pos.line, *start_line, indent) {
            Some(p) => p,
            None => {
                return Ok(block_ops);
            },
        };
        if range_finishes(s, a, b, ":") {
            match parse_statement_block(lines, start_line, cur, s, a, b) {
                Ok(op) => {
                    push_unless_nop(&mut block_ops, op);
                },
                Err(e) => {
                    return Err(e);
                },
            }
        } else {
            match parse_line(line, cur) {
                Ok(op) => {
                    push_unless_nop(&mut block_ops, op);
                    *start_line = *start_line + 1;
                },
                Err(e) => {
                    return Err(e);
                },
            }
        }
    }
    Ok(block_ops)
}

/// Parses the block whose trimmed header `s[a..b]` stands at `*current_line`,
/// choosing the parser by the header as `parse_block` and `parse_dsl` do.
pub fn parse_statement_block(
    lines: &[String],
    current_line: &mut usize,
    pos: SourcePosition,
    s: &[char],
    a: usize,
    b: usize,
) -> (r: Result<Op, CompilerError>)
    requires
        a <= b <= s@.len(),
        !(sp_stmt(strs_view(lines@), *old(current_line) as int, pos, s@.subrange(a as int, b as int))
            is Panic),
    ensures
        stmt_result(
            r,
            *final(current_line),
            sp_stmt(strs_view(lines@), *old(current_line) as int, pos, s@.subrange(a as int, b as int)),
        ),
        r is Ok ==> *old(current_line) < *final(current_line) <= lines@.len(),
    decreases lines@.len() - *old(current_line), 2int,
{
    if word_is(s, a, b, "if:") {
        parse_if_block(lines, current_line, pos)
    } else if word_is(s, a, b, "while:") {
        parse_while_block(lines, current_line, pos)
    } else if range_begins(s, a, b, "def ") {
        parse_function_block(lines, current_line, pos)
    } else if word_is(s, a, b, "match:") {
        parse_match_block(lines, current_line, pos)
    } else if range_begins(s, a, b, "loop ") {
        parse_loop_block(lines, current_line, pos)
    } else {
        Err(CompilerError::UnknownBlockType(string_of_range(s, a, b), pos.line, pos.column))
    }
}

/// Parses the block whose trimmed header `s[a..b]` stands at `*current_line`
/// inside a `while:` body, where function definitions are not recognised.
pub fn parse_nested_block(
    lines: &[String],
    current_line: &mut usize,
    pos: SourcePosition,
    s: &[char],
    a: usize,
    b: usize,
) -> (r: Result<Op, CompilerError>)
    requires
        a <= b <= s@.len(),
        !(sp_nested(strs_view(lines@), *old(current_line) as int, pos, s@.subrange(a as int, b as int))
            is Panic),
    ensures
        stmt_result(
            r,
            *final(current_line),
            sp_nested(strs_view(lines@), *old(current_line) as int, pos, s@.subrange(a as int, b as int)),
        ),
        r is Ok ==> *old(current_line) < *final(current_line) <= lines@.len(),
    decreases lines@.len() - *old(current_line), 2int,
{
    if word_is(s, a, b, "if:") {
        parse_if_block(lines, current_line, pos)
    } else if word_is(s, a, b, "while:") {
        parse_while_block(lines, current_line, pos)
    } else if range_begins(s, a, b, "loop ") {
        parse_loop_block(lines, current_line, pos)
    } else if word_is(s, a, b, "match:") {
        parse_match_block(lines, current_line, pos)
    } else {
        Err(CompilerError::UnknownBlockType(string_of_range(s, a, b), pos.line, pos.column))
    }
}

} // verus!
