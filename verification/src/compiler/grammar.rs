//! What the DSL compiler computes, stated over character sequences.
//!
//! Each parsing function of the compiler has here a spec function that says
//! what it returns for given lines: an `Outcome`, which is `Ok`, an error, or
//! `Panic` where the computation would stop with a panic (a text slice with
//! its start after its end, or an arithmetic overflow of a position).
use vstd::prelude::*;

use crate::compiler::{ErrorModel, SourcePosition};
use crate::numeric::{is_float_literal, parse_usize_spec};
use crate::ops::{push_op, OpModel};
use crate::text::{
    byte_len, ends_with, eq_ascii_nocase, find_from, find_sub_from, has_char, indent_of,
    rfind_before, split_on, starts_with, tokens, trim, trim_end_char,
};

verus! {

pub enum Outcome<T> {
    Done(T),
    Fail(ErrorModel),
    Panic,
}

/// A position, unless one of its numbers does not fit in a `usize`.
pub open spec fn mk_pos(line: int, column: int) -> Option<SourcePosition> {
    if 0 <= line <= usize::MAX && 0 <= column <= usize::MAX {
        Some(SourcePosition { line: line as usize, column: column as usize })
    } else {
        None
    }
}

/// The column of `pos` moved right by the byte offset at which `part` first
/// occurs in `line` (unchanged when it does not occur); `None` on overflow.
pub open spec fn adjusted_col(pos: SourcePosition, line: Seq<char>, part: Seq<char>) -> Option<usize> {
    let k = find_sub_from(line, part, 0);
    if k < 0 {
        Some(pos.column)
    } else {
        let c = pos.column + byte_len(line.take(k));
        if c <= usize::MAX {
            Some(c as usize)
        } else {
            None
        }
    }
}

/// An error about `part` of `line`, placed at the column where `part` starts.
pub open spec fn err_at<T>(
    mk: spec_fn(Seq<char>, usize, usize) -> ErrorModel,
    pos: SourcePosition,
    line: Seq<char>,
    part: Seq<char>,
) -> Outcome<T> {
    match adjusted_col(pos, line, part) {
        Some(c) => Outcome::Fail(mk(part, pos.line, c)),
        None => Outcome::Panic,
    }
}

/// The instruction that one line of DSL code stands for.
pub open spec fn sp_line(l: Seq<char>, pos: SourcePosition) -> Outcome<OpModel> {
    let t = tokens(l);
    if starts_with(trim(l), "#"@) || t.len() == 0 {
        Outcome::Done(OpModel::Nop)
    } else {
        let cmd = t[0];
        if cmd == "push"@ {
            if t.len() < 2 {
                Outcome::Fail(ErrorModel::MissingPushValue(pos.line, pos.column))
            } else if is_float_literal(t[1]) {
                Outcome::Done(OpModel::Push(t[1]))
            } else {
                err_at(|s: Seq<char>, a: usize, b: usize| ErrorModel::InvalidPushValue(s, a, b), pos, l, t[1])
            }
        } else if cmd == "emit"@ {
            let f = find_from(l, '"', 0);
            if f >= l.len() {
                Outcome::Fail(ErrorModel::MissingEmitQuotes(pos.line, pos.column))
            } else {
                let r = rfind_before(l, '"', l.len() as int);
                if r < f + 1 {
                    Outcome::Panic
                } else {
                    Outcome::Done(OpModel::Emit(l.subrange(f + 1, r)))
                }
            }
        } else if cmd == "emitevent"@ {
            let p = split_on(l, '"');
            if p.len() < 5 {
                Outcome::Fail(ErrorModel::InvalidEmitEventFormat(pos.line, pos.column))
            } else {
                Outcome::Done(OpModel::EmitEvent { category: trim(p[1]), message: trim(p[3]) })
            }
        } else if cmd == "assertequalstack"@ {
            if t.len() < 2 {
                Outcome::Fail(ErrorModel::MissingAssertDepth(pos.line, pos.column))
            } else {
                match parse_usize_spec(t[1]) {
                    None => err_at(
                        |s: Seq<char>, a: usize, b: usize| ErrorModel::InvalidAssertDepth(s, a, b),
                        pos,
                        l,
                        t[1],
                    ),
                    Some(d) => if d < 2 {
                        Outcome::Fail(ErrorModel::InsufficientAssertDepth(pos.line, pos.column))
                    } else {
                        Outcome::Done(OpModel::AssertEqualStack { depth: d })
                    },
                }
            }
        } else if cmd == "break"@ {
            Outcome::Done(OpModel::Break)
        } else if cmd == "continue"@ {
            Outcome::Done(OpModel::Continue)
        } else if cmd == "load"@ || cmd == "store"@ {
            if t.len() < 2 {
                Outcome::Fail(ErrorModel::MissingVariable(cmd, pos.line, pos.column))
            } else if cmd == "load"@ {
                Outcome::Done(OpModel::Load(t[1]))
            } else {
                Outcome::Done(OpModel::Store(t[1]))
            }
        } else if cmd == "call"@ {
            if t.len() < 2 {
                Outcome::Fail(ErrorModel::MissingFunctionName(pos.line, pos.column))
            } else {
                Outcome::Done(OpModel::Call(t[1]))
            }
        } else if cmd == "rankedvote"@ {
            if t.len() < 2 {
                Outcome::Fail(
                    ErrorModel::InvalidFunctionFormat(
                        "rankedvote requires 'candidates' parameter"@,
                        pos.line,
                        pos.column,
                    ),
                )
            } else if t.len() < 3 {
                Outcome::Fail(
                    ErrorModel::InvalidFunctionFormat(
                        "rankedvote requires 'ballots' parameter"@,
                        pos.line,
                        pos.column,
                    ),
                )
            } else {
                match parse_usize_spec(t[1]) {
                    None => Outcome::Fail(
                        ErrorModel::InvalidFunctionFormat(
                            "Invalid candidates count: "@ + t[1],
                            pos.line,
                            pos.column,
                        ),
                    ),
                    Some(c) => match parse_usize_spec(t[2]) {
                        None => Outcome::Fail(
                            ErrorModel::InvalidFunctionFormat(
                                "Invalid ballots count: "@ + t[2],
                                pos.line,
                                pos.column,
                            ),
                        ),
                        Some(b) => Outcome::Done(OpModel::RankedVote { candidates: c, ballots: b }),
                    },
                }
            }
        } else if cmd == "liquiddelegate"@ {
            if t.len() < 2 {
                Outcome::Fail(
                    ErrorModel::InvalidFunctionFormat(
                        "liquiddelegate requires 'from' parameter"@,
                        pos.line,
                        pos.column,
                    ),
                )
            } else if t.len() < 3 {
                Outcome::Fail(
                    ErrorModel::InvalidFunctionFormat(
                        "liquiddelegate requires 'to' parameter"@,
                        pos.line,
                        pos.column,
                    ),
                )
            } else {
                Outcome::Done(OpModel::LiquidDelegate { from: t[1], to: t[2] })
            }
        } else if cmd == "votethreshold"@ {
            if t.len() < 2 {
                Outcome::Fail(
                    ErrorModel::InvalidFunctionFormat(
                        "votethreshold requires threshold parameter"@,
                        pos.line,
                        pos.column,
                    ),
                )
            } else if is_float_literal(t[1]) {
                Outcome::Done(OpModel::VoteThreshold(t[1]))
            } else {
                Outcome::Fail(
                    ErrorModel::InvalidFunctionFormat(
                        "Invalid threshold value: "@ + t[1],
                        pos.line,
                        pos.column,
                    ),
                )
            }
        } else {
            match simple_op(cmd) {
                Some(op) => Outcome::Done(op),
                None => Outcome::Fail(ErrorModel::UnknownCommand(cmd, pos.line, pos.column)),
            }
        }
    }
}

/// The instructions that a single word stands for.
pub open spec fn simple_op(cmd: Seq<char>) -> Option<OpModel> {
    if cmd == "add"@ {
        Some(OpModel::Add)
    } else if cmd == "sub"@ {
        Some(OpModel::Sub)
    } else if cmd == "mul"@ {
        Some(OpModel::Mul)
    } else if cmd == "div"@ {
        Some(OpModel::Div)
    } else if cmd == "mod"@ {
        Some(OpModel::Mod)
    } else if cmd == "eq"@ {
        Some(OpModel::Eq)
    } else if cmd == "gt"@ {
        Some(OpModel::Gt)
    } else if cmd == "lt"@ {
        Some(OpModel::Lt)
    } else if cmd == "not"@ {
        Some(OpModel::Not)
    } else if cmd == "and"@ {
        Some(OpModel::And)
    } else if cmd == "or"@ {
        Some(OpModel::Or)
    } else if cmd == "negate"@ {
        Some(OpModel::Negate)
    } else if cmd == "dup"@ {
        Some(OpModel::Dup)
    } else if cmd == "swap"@ {
        Some(OpModel::Swap)
    } else if cmd == "over"@ {
        Some(OpModel::Over)
    } else if cmd == "pop"@ {
        Some(OpModel::Pop)
    } else if cmd == "return"@ {
        Some(OpModel::Return)
    } else if cmd == "dumpstack"@ {
        Some(OpModel::DumpStack)
    } else if cmd == "dumpmemory"@ {
        Some(OpModel::DumpMemory)
    } else if cmd == "dumpstate"@ {
        Some(OpModel::DumpState)
    } else {
        None
    }
}

/// Which kind of block a trimmed header line opens.
pub enum BlockKind {
    If,
    While,
    Def,
    Match,
    Loop,
    Unknown,
}

/// The block kind that `parse_block` and `parse_dsl` dispatch on.
pub open spec fn block_kind(t: Seq<char>) -> BlockKind {
    if t == "if:"@ {
        BlockKind::If
    } else if t == "while:"@ {
        BlockKind::While
    } else if starts_with(t, "def "@) {
        BlockKind::Def
    } else if t == "match:"@ {
        BlockKind::Match
    } else if starts_with(t, "loop "@) {
        BlockKind::Loop
    } else {
        BlockKind::Unknown
    }
}

/// The block kind that a `while` body dispatches on (no functions there).
pub open spec fn nested_kind(t: Seq<char>) -> BlockKind {
    if t == "if:"@ {
        BlockKind::If
    } else if t == "while:"@ {
        BlockKind::While
    } else if starts_with(t, "loop "@) {
        BlockKind::Loop
    } else if t == "match:"@ {
        BlockKind::Match
    } else {
        BlockKind::Unknown
    }
}

/// What a `while` block has gathered so far.
pub struct WhileAcc {
    pub condition: Option<Seq<OpModel>>,
    pub body: Seq<OpModel>,
}

/// What a `match` block has gathered so far.
pub struct MatchAcc {
    pub value: Seq<OpModel>,
    pub cases: Seq<(Seq<char>, Seq<OpModel>)>,
    pub default: Option<Seq<OpModel>>,
}

/// The parameter names of a signature: the comma-separated pieces, trimmed,
/// without the empty ones.
pub open spec fn param_names(pieces: Seq<Seq<char>>) -> Seq<Seq<char>>
    decreases pieces.len(),
{
    if pieces.len() == 0 {
        seq![]
    } else {
        let r = param_names(pieces.drop_last());
        let x = trim(pieces.last());
        if x.len() > 0 {
            r.push(x)
        } else {
            r
        }
    }
}

/// Name and parameters of a function header `def name(a, b):`.
pub open spec fn sp_signature(l: Seq<char>, pos: SourcePosition) -> Outcome<(Seq<char>, Seq<Seq<char>>)> {
    let s = trim_end_char(l, ':');
    let k = find_from(s, '(', 0);
    if k >= s.len() {
        Outcome::Fail(ErrorModel::InvalidFunctionDefinition(l, pos.line, pos.column))
    } else {
        let np = trim(s.take(k));
        if !starts_with(np, "def "@) {
            Outcome::Fail(ErrorModel::InvalidFunctionStart(l, pos.line, pos.column))
        } else {
            let name = trim(np.skip(4));
            let ps = trim_end_char(s.skip(k + 1), ')');
            Outcome::Done((name, param_names(split_on(ps, ','))))
        }
    }
}

/// The statements of an indented block that starts at line `i`, appended to
/// `acc`, and the index of the first line after the block.
pub open spec fn sp_block(
    ls: Seq<Seq<char>>,
    i: int,
    base: int,
    pos: SourcePosition,
    acc: Seq<OpModel>,
) -> Outcome<(Seq<OpModel>, int)>
    decreases ls.len() - i, 4int,
{
    if i < 0 {
        Outcome::Panic
    } else if i >= ls.len() {
        Outcome::Done((acc, i))
    } else {
        let l = ls[i];
        let ind = indent_of(l);
        let t = trim(l);
        if t.len() != 0 && ind <= base {
            Outcome::Done((acc, i))
        } else if t.len() == 0 {
            sp_block(ls, i + 1, base, pos, acc)
        } else {
            match mk_pos(pos.line + i, ind + 1) {
                None => Outcome::Panic,
                Some(cur) => if ends_with(t, ":"@) {
                    match sp_stmt(ls, i, cur, t) {
                        Outcome::Done((op, j)) => if i < j <= ls.len() {
                            sp_block(ls, j, base, pos, push_op(acc, op))
                        } else {
                            Outcome::Panic
                        },
                        Outcome::Fail(e) => Outcome::Fail(e),
                        Outcome::Panic => Outcome::Panic,
                    }
                } else {
                    match sp_line(l, cur) {
                        Outcome::Done(op) => sp_block(ls, i + 1, base, pos, push_op(acc, op)),
                        Outcome::Fail(e) => Outcome::Fail(e),
                        Outcome::Panic => Outcome::Panic,
                    }
                },
            }
        }
    }
}

/// The block whose header `t` stands at line `i`, as `parse_block` and
/// `parse_dsl` dispatch it.
pub open spec fn sp_stmt(ls: Seq<Seq<char>>, i: int, pos: SourcePosition, t: Seq<char>) -> Outcome<
    (OpModel, int),
>
    decreases ls.len() - i, 2int,
{
    match block_kind(t) {
        BlockKind::If => sp_if(ls, i, pos),
        BlockKind::While => sp_while(ls, i, pos),
        BlockKind::Def => sp_def(ls, i, pos),
        BlockKind::Match => sp_match(ls, i, pos),
        BlockKind::Loop => sp_loop(ls, i, pos),
        BlockKind::Unknown => Outcome::Fail(ErrorModel::UnknownBlockType(t, pos.line, pos.column)),
    }
}

/// The block whose header `t` stands at line `i` inside a `while:` body.
pub open spec fn sp_nested(ls: Seq<Seq<char>>, i: int, pos: SourcePosition, t: Seq<char>) -> Outcome<
    (OpModel, int),
>
    decreases ls.len() - i, 2int,
{
    match nested_kind(t) {
        BlockKind::If => sp_if(ls, i, pos),
        BlockKind::While => sp_while(ls, i, pos),
        BlockKind::Loop => sp_loop(ls, i, pos),
        BlockKind::Match => sp_match(ls, i, pos),
        _ => Outcome::Fail(ErrorModel::UnknownBlockType(t, pos.line, pos.column)),
    }
}

/// An `if:` block at line `i`, with its optional `else:` block.
pub open spec fn sp_if(ls: Seq<Seq<char>>, i: int, pos: SourcePosition) -> Outcome<(OpModel, int)>
    decreases ls.len() - i, 1int,
{
    if !(0 <= i < ls.len()) {
        Outcome::Panic
    } else {
        let ind = indent_of(ls[i]);
        match sp_block(ls, i + 1, ind, pos, seq![]) {
            Outcome::Done((then, j)) => if i < j < ls.len() && trim(ls[j]) == "else:"@ {
                match mk_pos(pos.line + j, indent_of(ls[j]) + 1) {
                    None => Outcome::Panic,
                    Some(ep) => match sp_block(ls, j + 1, ind, ep, seq![]) {
                        Outcome::Done((els, k)) => Outcome::Done(
                            (OpModel::If { condition: seq![], then, else_: Some(els) }, k),
                        ),
                        Outcome::Fail(e) => Outcome::Fail(e),
                        Outcome::Panic => Outcome::Panic,
                    },
                }
            } else {
                Outcome::Done((OpModel::If { condition: seq![], then, else_: None }, j))
            },
            Outcome::Fail(e) => Outcome::Fail(e),
            Outcome::Panic => Outcome::Panic,
        }
    }
}

/// A `def name(params):` block at line `i`.
pub open spec fn sp_def(ls: Seq<Seq<char>>, i: int, pos: SourcePosition) -> Outcome<(OpModel, int)>
    decreases ls.len() - i, 1int,
{
    if !(0 <= i < ls.len()) {
        Outcome::Panic
    } else {
        let l = ls[i];
        if !has_char(l, '(') || !has_char(l, ')') {
            Outcome::Fail(ErrorModel::InvalidFunctionFormat(l, pos.line, pos.column))
        } else {
            match sp_signature(l, pos) {
                Outcome::Done((name, params)) => match sp_block(ls, i + 1, indent_of(l), pos, seq![]) {
                    Outcome::Done((body, j)) => Outcome::Done((OpModel::Def { name, params, body }, j)),
                    Outcome::Fail(e) => Outcome::Fail(e),
                    Outcome::Panic => Outcome::Panic,
                },
                Outcome::Fail(e) => Outcome::Fail(e),
                Outcome::Panic => Outcome::Panic,
            }
        }
    }
}

/// Whether a `def` header line is well formed: it holds both parentheses
/// and its signature reads.
pub open spec fn def_header_ok(l: Seq<char>, pos: SourcePosition) -> bool {
    has_char(l, '(') && has_char(l, ')') && !(sp_signature(l, pos) is Fail)
}

/// Whether a `loop N:` header line is well formed: `loop`, in any case, a
/// space, and a count.
pub open spec fn loop_header_ok(l: Seq<char>) -> bool {
    let t = trim(l);
    let k = find_from(t, ' ', 0);
    k < t.len() && eq_ascii_nocase(t.take(k), "loop"@) && parse_usize_spec(trim_end_char(t.skip(k + 1), ':')) is Some
}

/// A `loop N:` block at line `i`.
pub open spec fn sp_loop(ls: Seq<Seq<char>>, i: int, pos: SourcePosition) -> Outcome<(OpModel, int)>
    decreases ls.len() - i, 1int,
{
    if !(0 <= i < ls.len()) {
        Outcome::Panic
    } else {
        let l = ls[i];
        let t = trim(l);
        let k = find_from(t, ' ', 0);
        if k >= t.len() || !eq_ascii_nocase(t.take(k), "loop"@) {
            Outcome::Fail(ErrorModel::InvalidLoopFormat(t, pos.line, pos.column))
        } else {
            let cs = trim_end_char(t.skip(k + 1), ':');
            match parse_usize_spec(cs) {
                None => err_at(
                    |s: Seq<char>, a: usize, b: usize| ErrorModel::InvalidLoopCount(s, a, b),
                    pos,
                    l,
                    cs,
                ),
                Some(count) => match sp_block(ls, i + 1, indent_of(l), pos, seq![]) {
                    Outcome::Done((body, j)) => Outcome::Done((OpModel::Loop { count, body }, j)),
                    Outcome::Fail(e) => Outcome::Fail(e),
                    Outcome::Panic => Outcome::Panic,
                },
            }
        }
    }
}

/// A `while:` block at line `i`.  Without a `condition:` block, the first
/// statement of the body is the condition.
pub open spec fn sp_while(ls: Seq<Seq<char>>, i: int, pos: SourcePosition) -> Outcome<(OpModel, int)>
    decreases ls.len() - i, 1int,
{
    if !(0 <= i < ls.len()) {
        Outcome::Panic
    } else {
        let ind = indent_of(ls[i]);
        match sp_while_items(ls, i + 1, ind, pos, WhileAcc { condition: None, body: seq![] }) {
            Outcome::Done((acc, j)) => Outcome::Done((while_op(acc), j)),
            Outcome::Fail(e) => Outcome::Fail(e),
            Outcome::Panic => Outcome::Panic,
        }
    }
}

/// The `While` instruction that the gathered parts of a `while:` block make.
pub open spec fn while_op(acc: WhileAcc) -> OpModel {
    match acc.condition {
        Some(c) => OpModel::While { condition: c, body: acc.body },
        None => if acc.body.len() > 0 {
            OpModel::While { condition: seq![acc.body[0]], body: acc.body.skip(1) }
        } else {
            OpModel::While { condition: seq![], body: acc.body }
        },
    }
}

/// The lines of a `while:` body from line `k` on.
pub open spec fn sp_while_items(
    ls: Seq<Seq<char>>,
    k: int,
    ind: int,
    pos: SourcePosition,
    acc: WhileAcc,
) -> Outcome<(WhileAcc, int)>
    decreases ls.len() - k, 3int,
{
    if k < 0 {
        Outcome::Panic
    } else if k >= ls.len() {
        Outcome::Done((acc, k))
    } else {
        let l = ls[k];
        let ik = indent_of(l);
        if ik <= ind {
            Outcome::Done((acc, k))
        } else {
            let t = trim(l);
            match mk_pos(pos.line + k, ik + 1) {
                None => Outcome::Panic,
                Some(p) => if t == "condition:"@ {
                    match sp_block(ls, k + 1, ik, p, seq![]) {
                        Outcome::Done((c, j)) => if k < j <= ls.len() {
                            sp_while_items(
                                ls,
                                j,
                                ind,
                                pos,
                                WhileAcc { condition: Some(c), body: acc.body },
                            )
                        } else {
                            Outcome::Panic
                        },
                        Outcome::Fail(e) => Outcome::Fail(e),
                        Outcome::Panic => Outcome::Panic,
                    }
                } else if ends_with(t, ":"@) {
                    match sp_nested(ls, k, p, t) {
                        Outcome::Done((op, j)) => if k < j <= ls.len() {
                            sp_while_items(
                                ls,
                                j,
                                ind,
                                pos,
                                WhileAcc { condition: acc.condition, body: acc.body.push(op) },
                            )
                        } else {
                            Outcome::Panic
                        },
                        Outcome::Fail(e) => Outcome::Fail(e),
                        Outcome::Panic => Outcome::Panic,
                    }
                } else {
                    match sp_line(l, p) {
                        Outcome::Done(op) => sp_while_items(
                            ls,
                            k + 1,
                            ind,
                            pos,
                            WhileAcc { condition: acc.condition, body: push_op(acc.body, op) },
                        ),
                        Outcome::Fail(e) => Outcome::Fail(e),
                        Outcome::Panic => Outcome::Panic,
                    }
                },
            }
        }
    }
}

/// A `match:` block at line `i`; it must gather some value instructions.
pub open spec fn sp_match(ls: Seq<Seq<char>>, i: int, pos: SourcePosition) -> Outcome<(OpModel, int)>
    decreases ls.len() - i, 1int,
{
    if !(0 <= i < ls.len()) {
        Outcome::Panic
    } else {
        let ind = indent_of(ls[i]);
        match sp_match_items(
            ls,
            i + 1,
            ind,
            pos,
            MatchAcc { value: seq![], cases: seq![], default: None },
        ) {
            Outcome::Done((acc, j)) => if acc.value.len() == 0 {
                Outcome::Fail(
                    ErrorModel::SyntaxError("Expected value block in match statement"@, pos),
                )
            } else {
                Outcome::Done(
                    (
                        OpModel::Match {
                            value: acc.value,
                            cases: acc.cases,
                            default: acc.default,
                        },
                        j,
                    ),
                )
            },
            Outcome::Fail(e) => Outcome::Fail(e),
            Outcome::Panic => Outcome::Panic,
        }
    }
}

/// The text of a case value: after `case `, trimmed, without trailing colons.
pub open spec fn case_value_text(t: Seq<char>) -> Seq<char> {
    trim_end_char(trim(t.skip(5)), ':')
}

/// The lines of a `match:` body from line `k` on.
pub open spec fn sp_match_items(
    ls: Seq<Seq<char>>,
    k: int,
    ind: int,
    pos: SourcePosition,
    acc: MatchAcc,
) -> Outcome<(MatchAcc, int)>
    decreases ls.len() - k, 3int,
{
    if k < 0 {
        Outcome::Panic
    } else if k >= ls.len() {
        Outcome::Done((acc, k))
    } else {
        let l = ls[k];
        let ik = indent_of(l);
        if ik <= ind {
            Outcome::Done((acc, k))
        } else {
            let t = trim(l);
            match mk_pos(pos.line + k, ik + 1) {
                None => Outcome::Panic,
                Some(lp) => if t == "value:"@ || t == "default:"@ || (starts_with(t, "case "@)
                    && is_float_literal(case_value_text(t))) {
                    match mk_pos(lp.line + 1, ik + 1) {
                        None => Outcome::Panic,
                        Some(bp) => match sp_block(ls, k + 1, ik, bp, seq![]) {
                            Outcome::Done((ops, j)) => if k < j <= ls.len() {
                                sp_match_items(ls, j, ind, pos, match_add(acc, t, ops))
                            } else {
                                Outcome::Panic
                            },
                            Outcome::Fail(e) => Outcome::Fail(e),
                            Outcome::Panic => Outcome::Panic,
                        },
                    }
                } else if starts_with(t, "case "@) {
                    err_at(
                        |s: Seq<char>, a: usize, b: usize| ErrorModel::InvalidCaseValue(s, a, b),
                        lp,
                        l,
                        case_value_text(t),
                    )
                } else {
                    match sp_line(l, lp) {
                        Outcome::Done(op) => sp_match_items(
                            ls,
                            k + 1,
                            ind,
                            pos,
                            MatchAcc {
                                value: push_op(acc.value, op),
                                cases: acc.cases,
                                default: acc.default,
                            },
                        ),
                        Outcome::Fail(e) => Outcome::Fail(e),
                        Outcome::Panic => Outcome::Panic,
                    }
                },
            }
        }
    }
}

/// What a `value:`, `case V:` or `default:` block adds to a `match` block.
pub open spec fn match_add(acc: MatchAcc, t: Seq<char>, ops: Seq<OpModel>) -> MatchAcc {
    if t == "value:"@ {
        MatchAcc { value: ops, cases: acc.cases, default: acc.default }
    } else if t == "default:"@ {
        MatchAcc { value: acc.value, cases: acc.cases, default: Some(ops) }
    } else {
        MatchAcc {
            value: acc.value,
            cases: acc.cases.push((case_value_text(t), ops)),
            default: acc.default,
        }
    }
}

/// The instructions of a whole program from line `i` on, appended to `acc`.
/// After a block, parsing goes on at the line that ends it.
pub open spec fn sp_program(ls: Seq<Seq<char>>, i: int, acc: Seq<OpModel>) -> Outcome<Seq<OpModel>>
    decreases ls.len() + 1 - i, 4int,
{
    if i < 0 {
        Outcome::Panic
    } else if i >= ls.len() {
        Outcome::Done(acc)
    } else {
        let l = ls[i];
        let t = trim(l);
        if t.len() == 0 {
            sp_program(ls, i + 1, acc)
        } else {
            match mk_pos(i + 1, indent_of(l) + 1) {
                None => Outcome::Panic,
                Some(pos) => if ends_with(t, ":"@) {
                    match sp_stmt(ls, i, pos, t) {
                        Outcome::Done((op, j)) => if i < j <= ls.len() {
                            sp_program(ls, j, push_op(acc, op))
                        } else {
                            Outcome::Panic
                        },
                        Outcome::Fail(e) => Outcome::Fail(e),
                        Outcome::Panic => Outcome::Panic,
                    }
                } else {
                    match sp_line(l, pos) {
                        Outcome::Done(op) => sp_program(ls, i + 1, push_op(acc, op)),
                        Outcome::Fail(e) => Outcome::Fail(e),
                        Outcome::Panic => Outcome::Panic,
                    }
                },
            }
        }
    }
}

/// A line whose first word is one of the single-word commands stands for
/// that command's own operation, whatever follows the word: `lt` is
/// less-than, `gt` greater-than, `add` addition, and so on.
pub proof fn lemma_command_words(l: Seq<char>, pos: SourcePosition)
    requires
        !starts_with(trim(l), "#"@),
        tokens(l).len() > 0,
    ensures
        tokens(l)[0] == "add"@ ==> sp_line(l, pos) == Outcome::Done(OpModel::Add),
        tokens(l)[0] == "sub"@ ==> sp_line(l, pos) == Outcome::Done(OpModel::Sub),
        tokens(l)[0] == "mul"@ ==> sp_line(l, pos) == Outcome::Done(OpModel::Mul),
        tokens(l)[0] == "div"@ ==> sp_line(l, pos) == Outcome::Done(OpModel::Div),
        tokens(l)[0] == "mod"@ ==> sp_line(l, pos) == Outcome::Done(OpModel::Mod),
        tokens(l)[0] == "eq"@ ==> sp_line(l, pos) == Outcome::Done(OpModel::Eq),
        tokens(l)[0] == "gt"@ ==> sp_line(l, pos) == Outcome::Done(OpModel::Gt),
        tokens(l)[0] == "lt"@ ==> sp_line(l, pos) == Outcome::Done(OpModel::Lt),
        tokens(l)[0] == "not"@ ==> sp_line(l, pos) == Outcome::Done(OpModel::Not),
        tokens(l)[0] == "and"@ ==> sp_line(l, pos) == Outcome::Done(OpModel::And),
        tokens(l)[0] == "or"@ ==> sp_line(l, pos) == Outcome::Done(OpModel::Or),
        tokens(l)[0] == "negate"@ ==> sp_line(l, pos) == Outcome::Done(OpModel::Negate),
        tokens(l)[0] == "dup"@ ==> sp_line(l, pos) == Outcome::Done(OpModel::Dup),
        tokens(l)[0] == "swap"@ ==> sp_line(l, pos) == Outcome::Done(OpModel::Swap),
        tokens(l)[0] == "over"@ ==> sp_line(l, pos) == Outcome::Done(OpModel::Over),
        tokens(l)[0] == "pop"@ ==> sp_line(l, pos) == Outcome::Done(OpModel::Pop),
        tokens(l)[0] == "return"@ ==> sp_line(l, pos) == Outcome::Done(OpModel::Return),
        tokens(l)[0] == "dumpstack"@ ==> sp_line(l, pos) == Outcome::Done(OpModel::DumpStack),
        tokens(l)[0] == "dumpmemory"@ ==> sp_line(l, pos) == Outcome::Done(OpModel::DumpMemory),
        tokens(l)[0] == "dumpstate"@ ==> sp_line(l, pos) == Outcome::Done(OpModel::DumpState),
        tokens(l)[0] == "break"@ ==> sp_line(l, pos) == Outcome::Done(OpModel::Break),
        tokens(l)[0] == "continue"@ ==> sp_line(l, pos) == Outcome::Done(OpModel::Continue),
{
    reveal_strlit("push");
    reveal_strlit("emit");
    reveal_strlit("emitevent");
    reveal_strlit("assertequalstack");
    reveal_strlit("break");
    reveal_strlit("continue");
    reveal_strlit("load");
    reveal_strlit("store");
    reveal_strlit("call");
    reveal_strlit("rankedvote");
    reveal_strlit("liquiddelegate");
    reveal_strlit("votethreshold");
    reveal_strlit("add");
    reveal_strlit("sub");
    reveal_strlit("mul");
    reveal_strlit("div");
    reveal_strlit("mod");
    reveal_strlit("eq");
    reveal_strlit("gt");
    reveal_strlit("lt");
    reveal_strlit("not");
    reveal_strlit("and");
    reveal_strlit("or");
    reveal_strlit("negate");
    reveal_strlit("dup");
    reveal_strlit("swap");
    reveal_strlit("over");
    reveal_strlit("pop");
    reveal_strlit("return");
    reveal_strlit("dumpstack");
    reveal_strlit("dumpmemory");
    reveal_strlit("dumpstate");
    let w = tokens(l)[0];
    if w == "add"@ {
        assert(w.len() != "push"@.len());
        assert(w.len() != "emit"@.len());
        assert(w.len() != "emitevent"@.len());
        assert(w.len() != "assertequalstack"@.len());
        assert(w.len() != "break"@.len());
        assert(w.len() != "continue"@.len());
        assert(w.len() != "load"@.len());
        assert(w.len() != "store"@.len());
        assert(w.len() != "call"@.len());
        assert(w.len() != "rankedvote"@.len());
        assert(w.len() != "liquiddelegate"@.len());
        assert(w.len() != "votethreshold"@.len());
        assert(w[0] != "sub"@[0]);
        assert(w[0] != "mul"@[0]);
        assert(w[0] != "div"@[0]);
        assert(w[0] != "mod"@[0]);
        assert(w.len() != "eq"@.len());
        assert(w.len() != "gt"@.len());
        assert(w.len() != "lt"@.len());
        assert(w[0] != "not"@[0]);
        assert(w[1] != "and"@[1]);
        assert(w.len() != "or"@.len());
        assert(w.len() != "negate"@.len());
        assert(w[0] != "dup"@[0]);
        assert(w.len() != "swap"@.len());
        assert(w.len() != "over"@.len());
        assert(w[0] != "pop"@[0]);
        assert(w.len() != "return"@.len());
        assert(w.len() != "dumpstack"@.len());
        assert(w.len() != "dumpmemory"@.len());
        assert(w.len() != "dumpstate"@.len());
        assert(sp_line(l, pos) == Outcome::Done(OpModel::Add));
    }
    if w == "sub"@ {
        assert(w.len() != "push"@.len());
        assert(w.len() != "emit"@.len());
        assert(w.len() != "emitevent"@.len());
        assert(w.len() != "assertequalstack"@.len());
        assert(w.len() != "break"@.len());
        assert(w.len() != "continue"@.len());
        assert(w.len() != "load"@.len());
        assert(w.len() != "store"@.len());
        assert(w.len() != "call"@.len());
        assert(w.len() != "rankedvote"@.len());
        assert(w.len() != "liquiddelegate"@.len());
        assert(w.len() != "votethreshold"@.len());
        assert(w[0] != "add"@[0]);
        assert(w[0] != "mul"@[0]);
        assert(w[0] != "div"@[0]);
        assert(w[0] != "mod"@[0]);
        assert(w.len() != "eq"@.len());
        assert(w.len() != "gt"@.len());
        assert(w.len() != "lt"@.len());
        assert(w[0] != "not"@[0]);
        assert(w[0] != "and"@[0]);
        assert(w.len() != "or"@.len());
        assert(w.len() != "negate"@.len());
        assert(w[0] != "dup"@[0]);
        assert(w.len() != "swap"@.len());
        assert(w.len() != "over"@.len());
        assert(w[0] != "pop"@[0]);
        assert(w.len() != "return"@.len());
        assert(w.len() != "dumpstack"@.len());
        assert(w.len() != "dumpmemory"@.len());
        assert(w.len() != "dumpstate"@.len());
        assert(sp_line(l, pos) == Outcome::Done(OpModel::Sub));
    }
    if w == "mul"@ {
        assert(w.len() != "push"@.len());
        assert(w.len() != "emit"@.len());
        assert(w.len() != "emitevent"@.len());
        assert(w.len() != "assertequalstack"@.len());
        assert(w.len() != "break"@.len());
        assert(w.len() != "continue"@.len());
        assert(w.len() != "load"@.len());
        assert(w.len() != "store"@.len());
        assert(w.len() != "call"@.len());
        assert(w.len() != "rankedvote"@.len());
        assert(w.len() != "liquiddelegate"@.len());
        assert(w.len() != "votethreshold"@.len());
        assert(w[0] != "add"@[0]);
        assert(w[0] != "sub"@[0]);
        assert(w[0] != "div"@[0]);
        assert(w[1] != "mod"@[1]);
        assert(w.len() != "eq"@.len());
        assert(w.len() != "gt"@.len());
        assert(w.len() != "lt"@.len());
        assert(w[0] != "not"@[0]);
        assert(w[0] != "and"@[0]);
        assert(w.len() != "or"@.len());
        assert(w.len() != "negate"@.len());
        assert(w[0] != "dup"@[0]);
        assert(w.len() != "swap"@.len());
        assert(w.len() != "over"@.len());
        assert(w[0] != "pop"@[0]);
        assert(w.len() != "return"@.len());
        assert(w.len() != "dumpstack"@.len());
        assert(w.len() != "dumpmemory"@.len());
        assert(w.len() != "dumpstate"@.len());
        assert(sp_line(l, pos) == Outcome::Done(OpModel::Mul));
    }
    if w == "div"@ {
        assert(w.len() != "push"@.len());
        assert(w.len() != "emit"@.len());
        assert(w.len() != "emitevent"@.len());
        assert(w.len() != "assertequalstack"@.len());
        assert(w.len() != "break"@.len());
        assert(w.len() != "continue"@.len());
        assert(w.len() != "load"@.len());
        assert(w.len() != "store"@.len());
        assert(w.len() != "call"@.len());
        assert(w.len() != "rankedvote"@.len());
        assert(w.len() != "liquiddelegate"@.len());
        assert(w.len() != "votethreshold"@.len());
        assert(w[0] != "add"@[0]);
        assert(w[0] != "sub"@[0]);
        assert(w[0] != "mul"@[0]);
        assert(w[0] != "mod"@[0]);
        assert(w.len() != "eq"@.len());
        assert(w.len() != "gt"@.len());
        assert(w.len() != "lt"@.len());
        assert(w[0] != "not"@[0]);
        assert(w[0] != "and"@[0]);
        assert(w.len() != "or"@.len());
        assert(w.len() != "negate"@.len());
        assert(w[1] != "dup"@[1]);
        assert(w.len() != "swap"@.len());
        assert(w.len() != "over"@.len());
        assert(w[0] != "pop"@[0]);
        assert(w.len() != "return"@.len());
        assert(w.len() != "dumpstack"@.len());
        assert(w.len() != "dumpmemory"@.len());
        assert(w.len() != "dumpstate"@.len());
        assert(sp_line(l, pos) == Outcome::Done(OpModel::Div));
    }
    if w == "mod"@ {
        assert(w.len() != "push"@.len());
        assert(w.len() != "emit"@.len());
        assert(w.len() != "emitevent"@.len());
        assert(w.len() != "assertequalstack"@.len());
        assert(w.len() != "break"@.len());
        assert(w.len() != "continue"@.len());
        assert(w.len() != "load"@.len());
        assert(w.len() != "store"@.len());
        assert(w.len() != "call"@.len());
        assert(w.len() != "rankedvote"@.len());
        assert(w.len() != "liquiddelegate"@.len());
        assert(w.len() != "votethreshold"@.len());
        assert(w[0] != "add"@[0]);
        assert(w[0] != "sub"@[0]);
        assert(w[1] != "mul"@[1]);
        assert(w[0] != "div"@[0]);
        assert(w.len() != "eq"@.len());
        assert(w.len() != "gt"@.len());
        assert(w.len() != "lt"@.len());
        assert(w[0] != "not"@[0]);
        assert(w[0] != "and"@[0]);
        assert(w.len() != "or"@.len());
        assert(w.len() != "negate"@.len());
        assert(w[0] != "dup"@[0]);
        assert(w.len() != "swap"@.len());
        assert(w.len() != "over"@.len());
        assert(w[0] != "pop"@[0]);
        assert(w.len() != "return"@.len());
        assert(w.len() != "dumpstack"@.len());
        assert(w.len() != "dumpmemory"@.len());
        assert(w.len() != "dumpstate"@.len());
        assert(sp_line(l, pos) == Outcome::Done(OpModel::Mod));
    }
    if w == "eq"@ {
        assert(w.len() != "push"@.len());
        assert(w.len() != "emit"@.len());
        assert(w.len() != "emitevent"@.len());
        assert(w.len() != "assertequalstack"@.len());
        assert(w.len() != "break"@.len());
        assert(w.len() != "continue"@.len());
        assert(w.len() != "load"@.len());
        assert(w.len() != "store"@.len());
        assert(w.len() != "call"@.len());
        assert(w.len() != "rankedvote"@.len());
        assert(w.len() != "liquiddelegate"@.len());
        assert(w.len() != "votethreshold"@.len());
        assert(w.len() != "add"@.len());
        assert(w.len() != "sub"@.len());
        assert(w.len() != "mul"@.len());
        assert(w.len() != "div"@.len());
        assert(w.len() != "mod"@.len());
        assert(w[0] != "gt"@[0]);
        assert(w[0] != "lt"@[0]);
        assert(w.len() != "not"@.len());
        assert(w.len() != "and"@.len());
        assert(w[0] != "or"@[0]);
        assert(w.len() != "negate"@.len());
        assert(w.len() != "dup"@.len());
        assert(w.len() != "swap"@.len());
        assert(w.len() != "over"@.len());
        assert(w.len() != "pop"@.len());
        assert(w.len() != "return"@.len());
        assert(w.len() != "dumpstack"@.len());
        assert(w.len() != "dumpmemory"@.len());
        assert(w.len() != "dumpstate"@.len());
        assert(sp_line(l, pos) == Outcome::Done(OpModel::Eq));
    }
    if w == "gt"@ {
        assert(w.len() != "push"@.len());
        assert(w.len() != "emit"@.len());
        assert(w.len() != "emitevent"@.len());
        assert(w.len() != "assertequalstack"@.len());
        assert(w.len() != "break"@.len());
        assert(w.len() != "continue"@.len());
        assert(w.len() != "load"@.len());
        assert(w.len() != "store"@.len());
        assert(w.len() != "call"@.len());
        assert(w.len() != "rankedvote"@.len());
        assert(w.len() != "liquiddelegate"@.len());
        assert(w.len() != "votethreshold"@.len());
        assert(w.len() != "add"@.len());
        assert(w.len() != "sub"@.len());
        assert(w.len() != "mul"@.len());
        assert(w.len() != "div"@.len());
        assert(w.len() != "mod"@.len());
        assert(w[0] != "eq"@[0]);
        assert(w[0] != "lt"@[0]);
        assert(w.len() != "not"@.len());
        assert(w.len() != "and"@.len());
        assert(w[0] != "or"@[0]);
        assert(w.len() != "negate"@.len());
        assert(w.len() != "dup"@.len());
        assert(w.len() != "swap"@.len());
        assert(w.len() != "over"@.len());
        assert(w.len() != "pop"@.len());
        assert(w.len() != "return"@.len());
        assert(w.len() != "dumpstack"@.len());
        assert(w.len() != "dumpmemory"@.len());
        assert(w.len() != "dumpstate"@.len());
        assert(sp_line(l, pos) == Outcome::Done(OpModel::Gt));
    }
    if w == "lt"@ {
        assert(w.len() != "push"@.len());
        assert(w.len() != "emit"@.len());
        assert(w.len() != "emitevent"@.len());
        assert(w.len() != "assertequalstack"@.len());
        assert(w.len() != "break"@.len());
        assert(w.len() != "continue"@.len());
        assert(w.len() != "load"@.len());
        assert(w.len() != "store"@.len());
        assert(w.len() != "call"@.len());
        assert(w.len() != "rankedvote"@.len());
        assert(w.len() != "liquiddelegate"@.len());
        assert(w.len() != "votethreshold"@.len());
        assert(w.len() != "add"@.len());
        assert(w.len() != "sub"@.len());
        assert(w.len() != "mul"@.len());
        assert(w.len() != "div"@.len());
        assert(w.len() != "mod"@.len());
        assert(w[0] != "eq"@[0]);
        assert(w[0] != "gt"@[0]);
        assert(w.len() != "not"@.len());
        assert(w.len() != "and"@.len());
        assert(w[0] != "or"@[0]);
        assert(w.len() != "negate"@.len());
        assert(w.len() != "dup"@.len());
        assert(w.len() != "swap"@.len());
        assert(w.len() != "over"@.len());
        assert(w.len() != "pop"@.len());
        assert(w.len() != "return"@.len());
        assert(w.len() != "dumpstack"@.len());
        assert(w.len() != "dumpmemory"@.len());
        assert(w.len() != "dumpstate"@.len());
        assert(sp_line(l, pos) == Outcome::Done(OpModel::Lt));
    }
    if w == "not"@ {
        assert(w.len() != "push"@.len());
        assert(w.len() != "emit"@.len());
        assert(w.len() != "emitevent"@.len());
        assert(w.len() != "assertequalstack"@.len());
        assert(w.len() != "break"@.len());
        assert(w.len() != "continue"@.len());
        assert(w.len() != "load"@.len());
        assert(w.len() != "store"@.len());
        assert(w.len() != "call"@.len());
        assert(w.len() != "rankedvote"@.len());
        assert(w.len() != "liquiddelegate"@.len());
        assert(w.len() != "votethreshold"@.len());
        assert(w[0] != "add"@[0]);
        assert(w[0] != "sub"@[0]);
        assert(w[0] != "mul"@[0]);
        assert(w[0] != "div"@[0]);
        assert(w[0] != "mod"@[0]);
        assert(w.len() != "eq"@.len());
        assert(w.len() != "gt"@.len());
        assert(w.len() != "lt"@.len());
        assert(w[0] != "and"@[0]);
        assert(w.len() != "or"@.len());
        assert(w.len() != "negate"@.len());
        assert(w[0] != "dup"@[0]);
        assert(w.len() != "swap"@.len());
        assert(w.len() != "over"@.len());
        assert(w[0] != "pop"@[0]);
        assert(w.len() != "return"@.len());
        assert(w.len() != "dumpstack"@.len());
        assert(w.len() != "dumpmemory"@.len());
        assert(w.len() != "dumpstate"@.len());
        assert(sp_line(l, pos) == Outcome::Done(OpModel::Not));
    }
    if w == "and"@ {
        assert(w.len() != "push"@.len());
        assert(w.len() != "emit"@.len());
        assert(w.len() != "emitevent"@.len());
        assert(w.len() != "assertequalstack"@.len());
        assert(w.len() != "break"@.len());
        assert(w.len() != "continue"@.len());
        assert(w.len() != "load"@.len());
        assert(w.len() != "store"@.len());
        assert(w.len() != "call"@.len());
        assert(w.len() != "rankedvote"@.len());
        assert(w.len() != "liquiddelegate"@.len());
        assert(w.len() != "votethreshold"@.len());
        assert(w[1] != "add"@[1]);
        assert(w[0] != "sub"@[0]);
        assert(w[0] != "mul"@[0]);
        assert(w[0] != "div"@[0]);
        assert(w[0] != "mod"@[0]);
        assert(w.len() != "eq"@.len());
        assert(w.len() != "gt"@.len());
        assert(w.len() != "lt"@.len());
        assert(w[0] != "not"@[0]);
        assert(w.len() != "or"@.len());
        assert(w.len() != "negate"@.len());
        assert(w[0] != "dup"@[0]);
        assert(w.len() != "swap"@.len());
        assert(w.len() != "over"@.len());
        assert(w[0] != "pop"@[0]);
        assert(w.len() != "return"@.len());
        assert(w.len() != "dumpstack"@.len());
        assert(w.len() != "dumpmemory"@.len());
        assert(w.len() != "dumpstate"@.len());
        assert(sp_line(l, pos) == Outcome::Done(OpModel::And));
    }
    if w == "or"@ {
        assert(w.len() != "push"@.len());
        assert(w.len() != "emit"@.len());
        assert(w.len() != "emitevent"@.len());
        assert(w.len() != "assertequalstack"@.len());
        assert(w.len() != "break"@.len());
        assert(w.len() != "continue"@.len());
        assert(w.len() != "load"@.len());
        assert(w.len() != "store"@.len());
        assert(w.len() != "call"@.len());
        assert(w.len() != "rankedvote"@.len());
        assert(w.len() != "liquiddelegate"@.len());
        assert(w.len() != "votethreshold"@.len());
        assert(w.len() != "add"@.len());
        assert(w.len() != "sub"@.len());
        assert(w.len() != "mul"@.len());
        assert(w.len() != "div"@.len());
        assert(w.len() != "mod"@.len());
        assert(w[0] != "eq"@[0]);
        assert(w[0] != "gt"@[0]);
        assert(w[0] != "lt"@[0]);
        assert(w.len() != "not"@.len());
        assert(w.len() != "and"@.len());
        assert(w.len() != "negate"@.len());
        assert(w.len() != "dup"@.len());
        assert(w.len() != "swap"@.len());
        assert(w.len() != "over"@.len());
        assert(w.len() != "pop"@.len());
        assert(w.len() != "return"@.len());
        assert(w.len() != "dumpstack"@.len());
        assert(w.len() != "dumpmemory"@.len());
        assert(w.len() != "dumpstate"@.len());
        assert(sp_line(l, pos) == Outcome::Done(OpModel::Or));
    }
    if w == "negate"@ {
        assert(w.len() != "push"@.len());
        assert(w.len() != "emit"@.len());
        assert(w.len() != "emitevent"@.len());
        assert(w.len() != "assertequalstack"@.len());
        assert(w.len() != "break"@.len());
        assert(w.len() != "continue"@.len());
        assert(w.len() != "load"@.len());
        assert(w.len() != "store"@.len());
        assert(w.len() != "call"@.len());
        assert(w.len() != "rankedvote"@.len());
        assert(w.len() != "liquiddelegate"@.len());
        assert(w.len() != "votethreshold"@.len());
        assert(w.len() != "add"@.len());
        assert(w.len() != "sub"@.len());
        assert(w.len() != "mul"@.len());
        assert(w.len() != "div"@.len());
        assert(w.len() != "mod"@.len());
        assert(w.len() != "eq"@.len());
        assert(w.len() != "gt"@.len());
        assert(w.len() != "lt"@.len());
        assert(w.len() != "not"@.len());
        assert(w.len() != "and"@.len());
        assert(w.len() != "or"@.len());
        assert(w.len() != "dup"@.len());
        assert(w.len() != "swap"@.len());
        assert(w.len() != "over"@.len());
        assert(w.len() != "pop"@.len());
        assert(w[0] != "return"@[0]);
        assert(w.len() != "dumpstack"@.len());
        assert(w.len() != "dumpmemory"@.len());
        assert(w.len() != "dumpstate"@.len());
        assert(sp_line(l, pos) == Outcome::Done(OpModel::Negate));
    }
    if w == "dup"@ {
        assert(w.len() != "push"@.len());
        assert(w.len() != "emit"@.len());
        assert(w.len() != "emitevent"@.len());
        assert(w.len() != "assertequalstack"@.len());
        assert(w.len() != "break"@.len());
        assert(w.len() != "continue"@.len());
        assert(w.len() != "load"@.len());
        assert(w.len() != "store"@.len());
        assert(w.len() != "call"@.len());
        assert(w.len() != "rankedvote"@.len());
        assert(w.len() != "liquiddelegate"@.len());
        assert(w.len() != "votethreshold"@.len());
        assert(w[0] != "add"@[0]);
        assert(w[0] != "sub"@[0]);
        assert(w[0] != "mul"@[0]);
        assert(w[1] != "div"@[1]);
        assert(w[0] != "mod"@[0]);
        assert(w.len() != "eq"@.len());
        assert(w.len() != "gt"@.len());
        assert(w.len() != "lt"@.len());
        assert(w[0] != "not"@[0]);
        assert(w[0] != "and"@[0]);
        assert(w.len() != "or"@.len());
        assert(w.len() != "negate"@.len());
        assert(w.len() != "swap"@.len());
        assert(w.len() != "over"@.len());
        assert(w[0] != "pop"@[0]);
        assert(w.len() != "return"@.len());
        assert(w.len() != "dumpstack"@.len());
        assert(w.len() != "dumpmemory"@.len());
        assert(w.len() != "dumpstate"@.len());
        assert(sp_line(l, pos) == Outcome::Done(OpModel::Dup));
    }
    if w == "swap"@ {
        assert(w[0] != "push"@[0]);
        assert(w[0] != "emit"@[0]);
        assert(w.len() != "emitevent"@.len());
        assert(w.len() != "assertequalstack"@.len());
        assert(w.len() != "break"@.len());
        assert(w.len() != "continue"@.len());
        assert(w[0] != "load"@[0]);
        assert(w.len() != "store"@.len());
        assert(w[0] != "call"@[0]);
        assert(w.len() != "rankedvote"@.len());
        assert(w.len() != "liquiddelegate"@.len());
        assert(w.len() != "votethreshold"@.len());
        assert(w.len() != "add"@.len());
        assert(w.len() != "sub"@.len());
        assert(w.len() != "mul"@.len());
        assert(w.len() != "div"@.len());
        assert(w.len() != "mod"@.len());
        assert(w.len() != "eq"@.len());
        assert(w.len() != "gt"@.len());
        assert(w.len() != "lt"@.len());
        assert(w.len() != "not"@.len());
        assert(w.len() != "and"@.len());
        assert(w.len() != "or"@.len());
        assert(w.len() != "negate"@.len());
        assert(w.len() != "dup"@.len());
        assert(w[0] != "over"@[0]);
        assert(w.len() != "pop"@.len());
        assert(w.len() != "return"@.len());
        assert(w.len() != "dumpstack"@.len());
        assert(w.len() != "dumpmemory"@.len());
        assert(w.len() != "dumpstate"@.len());
        assert(sp_line(l, pos) == Outcome::Done(OpModel::Swap));
    }
    if w == "over"@ {
        assert(w[0] != "push"@[0]);
        assert(w[0] != "emit"@[0]);
        assert(w.len() != "emitevent"@.len());
        assert(w.len() != "assertequalstack"@.len());
        assert(w.len() != "break"@.len());
        assert(w.len() != "continue"@.len());
        assert(w[0] != "load"@[0]);
        assert(w.len() != "store"@.len());
        assert(w[0] != "call"@[0]);
        assert(w.len() != "rankedvote"@.len());
        assert(w.len() != "liquiddelegate"@.len());
        assert(w.len() != "votethreshold"@.len());
        assert(w.len() != "add"@.len());
        assert(w.len() != "sub"@.len());
        assert(w.len() != "mul"@.len());
        assert(w.len() != "div"@.len());
        assert(w.len() != "mod"@.len());
        assert(w.len() != "eq"@.len());
        assert(w.len() != "gt"@.len());
        assert(w.len() != "lt"@.len());
        assert(w.len() != "not"@.len());
        assert(w.len() != "and"@.len());
        assert(w.len() != "or"@.len());
        assert(w.len() != "negate"@.len());
        assert(w.len() != "dup"@.len());
        assert(w[0] != "swap"@[0]);
        assert(w.len() != "pop"@.len());
        assert(w.len() != "return"@.len());
        assert(w.len() != "dumpstack"@.len());
        assert(w.len() != "dumpmemory"@.len());
        assert(w.len() != "dumpstate"@.len());
        assert(sp_line(l, pos) == Outcome::Done(OpModel::Over));
    }
    if w == "pop"@ {
        assert(w.len() != "push"@.len());
        assert(w.len() != "emit"@.len());
        assert(w.len() != "emitevent"@.len());
        assert(w.len() != "assertequalstack"@.len());
        assert(w.len() != "break"@.len());
        assert(w.len() != "continue"@.len());
        assert(w.len() != "load"@.len());
        assert(w.len() != "store"@.len());
        assert(w.len() != "call"@.len());
        assert(w.len() != "rankedvote"@.len());
        assert(w.len() != "liquiddelegate"@.len());
        assert(w.len() != "votethreshold"@.len());
        assert(w[0] != "add"@[0]);
        assert(w[0] != "sub"@[0]);
        assert(w[0] != "mul"@[0]);
        assert(w[0] != "div"@[0]);
        assert(w[0] != "mod"@[0]);
        assert(w.len() != "eq"@.len());
        assert(w.len() != "gt"@.len());
        assert(w.len() != "lt"@.len());
        assert(w[0] != "not"@[0]);
        assert(w[0] != "and"@[0]);
        assert(w.len() != "or"@.len());
        assert(w.len() != "negate"@.len());
        assert(w[0] != "dup"@[0]);
        assert(w.len() != "swap"@.len());
        assert(w.len() != "over"@.len());
        assert(w.len() != "return"@.len());
        assert(w.len() != "dumpstack"@.len());
        assert(w.len() != "dumpmemory"@.len());
        assert(w.len() != "dumpstate"@.len());
        assert(sp_line(l, pos) == Outcome::Done(OpModel::Pop));
    }
    if w == "return"@ {
        assert(w.len() != "push"@.len());
        assert(w.len() != "emit"@.len());
        assert(w.len() != "emitevent"@.len());
        assert(w.len() != "assertequalstack"@.len());
        assert(w.len() != "break"@.len());
        assert(w.len() != "continue"@.len());
        assert(w.len() != "load"@.len());
        assert(w.len() != "store"@.len());
        assert(w.len() != "call"@.len());
        assert(w.len() != "rankedvote"@.len());
        assert(w.len() != "liquiddelegate"@.len());
        assert(w.len() != "votethreshold"@.len());
        assert(w.len() != "add"@.len());
        assert(w.len() != "sub"@.len());
        assert(w.len() != "mul"@.len());
        assert(w.len() != "div"@.len());
        assert(w.len() != "mod"@.len());
        assert(w.len() != "eq"@.len());
        assert(w.len() != "gt"@.len());
        assert(w.len() != "lt"@.len());
        assert(w.len() != "not"@.len());
        assert(w.len() != "and"@.len());
        assert(w.len() != "or"@.len());
        assert(w[0] != "negate"@[0]);
        assert(w.len() != "dup"@.len());
        assert(w.len() != "swap"@.len());
        assert(w.len() != "over"@.len());
        assert(w.len() != "pop"@.len());
        assert(w.len() != "dumpstack"@.len());
        assert(w.len() != "dumpmemory"@.len());
        assert(w.len() != "dumpstate"@.len());
        assert(sp_line(l, pos) == Outcome::Done(OpModel::Return));
    }
    if w == "dumpstack"@ {
        assert(w.len() != "push"@.len());
        assert(w.len() != "emit"@.len());
        assert(w[0] != "emitevent"@[0]);
        assert(w.len() != "assertequalstack"@.len());
        assert(w.len() != "break"@.len());
        assert(w.len() != "continue"@.len());
        assert(w.len() != "load"@.len());
        assert(w.len() != "store"@.len());
        assert(w.len() != "call"@.len());
        assert(w.len() != "rankedvote"@.len());
        assert(w.len() != "liquiddelegate"@.len());
        assert(w.len() != "votethreshold"@.len());
        assert(w.len() != "add"@.len());
        assert(w.len() != "sub"@.len());
        assert(w.len() != "mul"@.len());
        assert(w.len() != "div"@.len());
        assert(w.len() != "mod"@.len());
        assert(w.len() != "eq"@.len());
        assert(w.len() != "gt"@.len());
        assert(w.len() != "lt"@.len());
        assert(w.len() != "not"@.len());
        assert(w.len() != "and"@.len());
        assert(w.len() != "or"@.len());
        assert(w.len() != "negate"@.len());
        assert(w.len() != "dup"@.len());
        assert(w.len() != "swap"@.len());
        assert(w.len() != "over"@.len());
        assert(w.len() != "pop"@.len());
        assert(w.len() != "return"@.len());
        assert(w.len() != "dumpmemory"@.len());
        assert(w[7] != "dumpstate"@[7]);
        assert(sp_line(l, pos) == Outcome::Done(OpModel::DumpStack));
    }
    if w == "dumpmemory"@ {
        assert(w.len() != "push"@.len());
        assert(w.len() != "emit"@.len());
        assert(w.len() != "emitevent"@.len());
        assert(w.len() != "assertequalstack"@.len());
        assert(w.len() != "break"@.len());
        assert(w.len() != "continue"@.len());
        assert(w.len() != "load"@.len());
        assert(w.len() != "store"@.len());
        assert(w.len() != "call"@.len());
        assert(w[0] != "rankedvote"@[0]);
        assert(w.len() != "liquiddelegate"@.len());
        assert(w.len() != "votethreshold"@.len());
        assert(w.len() != "add"@.len());
        assert(w.len() != "sub"@.len());
        assert(w.len() != "mul"@.len());
        assert(w.len() != "div"@.len());
        assert(w.len() != "mod"@.len());
        assert(w.len() != "eq"@.len());
        assert(w.len() != "gt"@.len());
        assert(w.len() != "lt"@.len());
        assert(w.len() != "not"@.len());
        assert(w.len() != "and"@.len());
        assert(w.len() != "or"@.len());
        assert(w.len() != "negate"@.len());
        assert(w.len() != "dup"@.len());
        assert(w.len() != "swap"@.len());
        assert(w.len() != "over"@.len());
        assert(w.len() != "pop"@.len());
        assert(w.len() != "return"@.len());
        assert(w.len() != "dumpstack"@.len());
        assert(w.len() != "dumpstate"@.len());
        assert(sp_line(l, pos) == Outcome::Done(OpModel::DumpMemory));
    }
    if w == "dumpstate"@ {
        assert(w.len() != "push"@.len());
        assert(w.len() != "emit"@.len());
        assert(w[0] != "emitevent"@[0]);
        assert(w.len() != "assertequalstack"@.len());
        assert(w.len() != "break"@.len());
        assert(w.len() != "continue"@.len());
        assert(w.len() != "load"@.len());
        assert(w.len() != "store"@.len());
        assert(w.len() != "call"@.len());
        assert(w.len() != "rankedvote"@.len());
        assert(w.len() != "liquiddelegate"@.len());
        assert(w.len() != "votethreshold"@.len());
        assert(w.len() != "add"@.len());
        assert(w.len() != "sub"@.len());
        assert(w.len() != "mul"@.len());
        assert(w.len() != "div"@.len());
        assert(w.len() != "mod"@.len());
        assert(w.len() != "eq"@.len());
        assert(w.len() != "gt"@.len());
        assert(w.len() != "lt"@.len());
        assert(w.len() != "not"@.len());
        assert(w.len() != "and"@.len());
        assert(w.len() != "or"@.len());
        assert(w.len() != "negate"@.len());
        assert(w.len() != "dup"@.len());
        assert(w.len() != "swap"@.len());
        assert(w.len() != "over"@.len());
        assert(w.len() != "pop"@.len());
        assert(w.len() != "return"@.len());
        assert(w[7] != "dumpstack"@[7]);
        assert(w.len() != "dumpmemory"@.len());
        assert(sp_line(l, pos) == Outcome::Done(OpModel::DumpState));
    }
    if w == "break"@ {
        assert(w.len() != "push"@.len());
        assert(w.len() != "emit"@.len());
        assert(w.len() != "emitevent"@.len());
        assert(w.len() != "assertequalstack"@.len());
        assert(w.len() != "continue"@.len());
        assert(w.len() != "load"@.len());
        assert(w[0] != "store"@[0]);
        assert(w.len() != "call"@.len());
        assert(w.len() != "rankedvote"@.len());
        assert(w.len() != "liquiddelegate"@.len());
        assert(w.len() != "votethreshold"@.len());
        assert(w.len() != "add"@.len());
        assert(w.len() != "sub"@.len());
        assert(w.len() != "mul"@.len());
        assert(w.len() != "div"@.len());
        assert(w.len() != "mod"@.len());
        assert(w.len() != "eq"@.len());
        assert(w.len() != "gt"@.len());
        assert(w.len() != "lt"@.len());
        assert(w.len() != "not"@.len());
        assert(w.len() != "and"@.len());
        assert(w.len() != "or"@.len());
        assert(w.len() != "negate"@.len());
        assert(w.len() != "dup"@.len());
        assert(w.len() != "swap"@.len());
        assert(w.len() != "over"@.len());
        assert(w.len() != "pop"@.len());
        assert(w.len() != "return"@.len());
        assert(w.len() != "dumpstack"@.len());
        assert(w.len() != "dumpmemory"@.len());
        assert(w.len() != "dumpstate"@.len());
        assert(sp_line(l, pos) == Outcome::Done(OpModel::Break));
    }
    if w == "continue"@ {
        assert(w.len() != "push"@.len());
        assert(w.len() != "emit"@.len());
        assert(w.len() != "emitevent"@.len());
        assert(w.len() != "assertequalstack"@.len());
        assert(w.len() != "break"@.len());
        assert(w.len() != "load"@.len());
        assert(w.len() != "store"@.len());
        assert(w.len() != "call"@.len());
        assert(w.len() != "rankedvote"@.len());
        assert(w.len() != "liquiddelegate"@.len());
        assert(w.len() != "votethreshold"@.len());
        assert(w.len() != "add"@.len());
        assert(w.len() != "sub"@.len());
        assert(w.len() != "mul"@.len());
        assert(w.len() != "div"@.len());
        assert(w.len() != "mod"@.len());
        assert(w.len() != "eq"@.len());
        assert(w.len() != "gt"@.len());
        assert(w.len() != "lt"@.len());
        assert(w.len() != "not"@.len());
        assert(w.len() != "and"@.len());
        assert(w.len() != "or"@.len());
        assert(w.len() != "negate"@.len());
        assert(w.len() != "dup"@.len());
        assert(w.len() != "swap"@.len());
        assert(w.len() != "over"@.len());
        assert(w.len() != "pop"@.len());
        assert(w.len() != "return"@.len());
        assert(w.len() != "dumpstack"@.len());
        assert(w.len() != "dumpmemory"@.len());
        assert(w.len() != "dumpstate"@.len());
        assert(sp_line(l, pos) == Outcome::Done(OpModel::Continue));
    }
}

/// A line `push V` with a number `V` pushes `V`; `load X`, `store X` and
/// `call F` load, store and call what they name.
pub proof fn lemma_operand_words(l: Seq<char>, pos: SourcePosition)
    requires
        !starts_with(trim(l), "#"@),
        tokens(l).len() >= 2,
    ensures
        tokens(l)[0] == "push"@ && is_float_literal(tokens(l)[1]) ==> sp_line(l, pos) == Outcome::Done(
            OpModel::Push(tokens(l)[1]),
        ),
        tokens(l)[0] == "load"@ ==> sp_line(l, pos) == Outcome::Done(OpModel::Load(tokens(l)[1])),
        tokens(l)[0] == "store"@ ==> sp_line(l, pos) == Outcome::Done(OpModel::Store(tokens(l)[1])),
        tokens(l)[0] == "call"@ ==> sp_line(l, pos) == Outcome::Done(OpModel::Call(tokens(l)[1])),
{
    reveal_strlit("push");
    reveal_strlit("emit");
    reveal_strlit("emitevent");
    reveal_strlit("assertequalstack");
    reveal_strlit("break");
    reveal_strlit("continue");
    reveal_strlit("load");
    reveal_strlit("store");
    reveal_strlit("call");
    reveal_strlit("rankedvote");
    reveal_strlit("liquiddelegate");
    reveal_strlit("votethreshold");
    let w = tokens(l)[0];
    if w == "load"@ {
        assert(w.len() != "push"@.len() || w[0] != "push"@[0]);
        assert(w.len() != "emit"@.len() || w[0] != "emit"@[0]);
    }
    if w == "store"@ {
        assert(w.len() != "break"@.len() || w[0] != "break"@[0]);
    }
    if w == "call"@ {
        assert(w[0] != "push"@[0]);
        assert(w[0] != "emit"@[0]);
        assert(w[0] != "load"@[0]);
        assert(w.len() != "emitevent"@.len());
        assert(w.len() != "assertequalstack"@.len());
        assert(w.len() != "break"@.len());
        assert(w.len() != "continue"@.len());
        assert(w.len() != "store"@.len());
        assert(sp_line(l, pos) == Outcome::Done(OpModel::Call(tokens(l)[1])));
    }
    if w == "push"@ {
        assert(w[0] != "load"@[0]);
    }
}

} // verus!
