//! When the DSL compiler cannot stop with a panic: a source whose `emit`
//! lines that hold a quote hold a second one, and whose line and column
//! numbers fit in a `usize` (for `n` lines, `n * (n + 2)` fits, a bound on
//! any line number at any depth of nesting; a line's columns fit five times
//! over). Every block then ends inside the source.

use vstd::prelude::*;
use crate::compiler::grammar::{
    adjusted_col, block_kind, err_at, mk_pos, nested_kind, sp_block, sp_def, sp_if, sp_line, sp_loop,
    sp_match, sp_match_items, sp_nested, sp_program, sp_signature, sp_stmt, sp_while, sp_while_items,
    BlockKind, MatchAcc, Outcome, WhileAcc,
};
use crate::compiler::common::{range_begins, word_is};
use crate::compiler::{parse_dsl, parse_dsl_with_stdlib, program_result, program_spec, with_stdlib, CompilerError};
use crate::compiler::stdlib::get_stdlib_code;
use crate::ops::{push_op, Op, OpModel};
use crate::text::{
    byte_len, chars_of, find_char_from, find_from, find_sub_from, indent_of, lemma_find_from_bounds,
    lemma_rfind_bounds, lemma_strs_view, lemma_trim_bounds, lemma_ws_run_bounds, lines_of, rfind_before,
    rfind_char, split_lines, starts_with, strs_view, token_spans, tokens, trim, trim_bounds, utf8_width,
};
use crate::compiler::SourcePosition;

verus! {


/// Whether an `emit` line that holds a quote holds a second one after it
/// (other lines always qualify).
pub open spec fn emit_quoted(l: Seq<char>) -> bool {
    let t = tokens(l);
    ||| starts_with(trim(l), "#"@)
    ||| t.len() == 0
    ||| t[0] != "emit"@
    ||| find_from(l, '"', 0) >= l.len()
    ||| rfind_before(l, '"', l.len() as int) >= find_from(l, '"', 0) + 1
}

/// A line the compiler surely reads without a panic.
pub open spec fn line_fits(l: Seq<char>) -> bool {
    5 * l.len() + 2 <= usize::MAX && emit_quoted(l)
}

/// Lines the compiler surely parses without a panic.
pub open spec fn source_fits(ls: Seq<Seq<char>>) -> bool {
    &&& ls.len() * (ls.len() + 2) <= usize::MAX
    &&& forall|k: int| 0 <= k < ls.len() ==> #[trigger] line_fits(ls[k])
}

/// A block outcome that is no panic and whose end lies in `lo..=n`.
pub open spec fn block_ok<T>(o: Outcome<(T, int)>, lo: int, n: int) -> bool {
    match o {
        Outcome::Done((_, j)) => lo <= j <= n,
        Outcome::Fail(_) => true,
        Outcome::Panic => false,
    }
}

/// The factor that bounds line numbers: a block whose header is at index
/// `h` numbers its lines below `(h + 1) * line_factor(ls)`.
pub open spec fn line_factor(ls: Seq<Seq<char>>) -> int {
    ls.len() as int + 2
}

proof fn lemma_step(s: int, i: int, kk: int)
    by (nonlinear_arith)
    requires
        1 <= s <= i,
        i + 1 <= kk,
    ensures
        s * kk + i + 1 <= (i + 1) * kk,
{
}

proof fn lemma_cap(i: int, n: int)
    by (nonlinear_arith)
    requires
        0 <= i < n,
    ensures
        (i + 1) * (n + 2) <= n * (n + 2),
        i + 1 <= (i + 1) * (n + 2),
{
}

proof fn lemma_byte_len_bound(s: Seq<char>)
    ensures
        0 <= byte_len(s) <= 4 * s.len(),
    decreases s.len(),
{
    if s.len() > 0 {
        lemma_byte_len_bound(s.drop_last());
        assert(1 <= utf8_width(s.last()) <= 4);
    }
}

proof fn lemma_find_sub_bound(s: Seq<char>, p: Seq<char>, k: int)
    ensures
        find_sub_from(s, p, k) == -1 || (0 <= find_sub_from(s, p, k) && find_sub_from(s, p, k) + p.len()
            <= s.len()),
    decreases s.len() - k,
{
    if 0 <= k && k + p.len() <= s.len() {
        if !(s.subrange(k, k + p.len()) =~= p) {
            lemma_find_sub_bound(s, p, k + 1);
        }
    }
}

proof fn lemma_adjusted_some(pos: SourcePosition, line: Seq<char>)
    requires
        pos.column <= line.len() + 1,
        5 * line.len() + 2 <= usize::MAX,
    ensures
        forall|part: Seq<char>| #[trigger] adjusted_col(pos, line, part) is Some,
{
    assert forall|part: Seq<char>| #[trigger] adjusted_col(pos, line, part) is Some by {
        let k = find_sub_from(line, part, 0);
        lemma_find_sub_bound(line, part, 0);
        if k >= 0 {
            lemma_byte_len_bound(line.take(k));
            assert(pos.column + byte_len(line.take(k)) <= usize::MAX);
        }
    }
}

proof fn lemma_line(l: Seq<char>, pos: SourcePosition)
    requires
        line_fits(l),
        pos.column <= l.len() + 1,
    ensures
        !(sp_line(l, pos) is Panic),
{
    lemma_adjusted_some(pos, l);
}

proof fn lemma_block(ls: Seq<Seq<char>>, i: int, base: int, pos: SourcePosition, acc: Seq<OpModel>, s: int)
    requires
        source_fits(ls),
        1 <= s <= i <= ls.len(),
        pos.line <= s * line_factor(ls),
    ensures
        block_ok(sp_block(ls, i, base, pos, acc), i, ls.len() as int),
    decreases ls.len() - i, 4int,
{
    if i < ls.len() {
        let l = ls[i];
        let ind = indent_of(l);
        let t = trim(l);
        assert(line_fits(ls[i]));
        lemma_ws_run_bounds(l, 0);
        if t.len() != 0 && ind <= base {
        } else if t.len() == 0 {
            lemma_block(ls, i + 1, base, pos, acc, s);
        } else {
            let kk = line_factor(ls);
            lemma_step(s, i, kk);
            lemma_cap(i, ls.len() as int);
            assert(pos.line + i <= usize::MAX);
            let cur = SourcePosition { line: (pos.line + i) as usize, column: (ind + 1) as usize };
            assert(mk_pos(pos.line + i, ind + 1) == Some(cur));
            if ends_with_colon(t) {
                lemma_stmt(ls, i, cur, t);
                match sp_stmt(ls, i, cur, t) {
                    Outcome::Done((op, j)) => {
                        lemma_block(ls, j, base, pos, push_op(acc, op), s);
                    },
                    _ => {},
                }
            } else {
                lemma_line(l, cur);
                match sp_line(l, cur) {
                    Outcome::Done(op) => {
                        lemma_block(ls, i + 1, base, pos, push_op(acc, op), s);
                    },
                    _ => {},
                }
            }
        }
    }
}

/// Whether a trimmed line ends with `:`.
pub open spec fn ends_with_colon(t: Seq<char>) -> bool {
    crate::text::ends_with(t, ":"@)
}

proof fn lemma_stmt(ls: Seq<Seq<char>>, i: int, pos: SourcePosition, t: Seq<char>)
    requires
        source_fits(ls),
        0 <= i < ls.len(),
        pos.line <= (i + 1) * line_factor(ls),
        pos.column <= ls[i].len() + 1,
    ensures
        block_ok(sp_stmt(ls, i, pos, t), i + 1, ls.len() as int),
    decreases ls.len() - i, 2int,
{
    match block_kind(t) {
        BlockKind::If => lemma_if(ls, i, pos),
        BlockKind::While => lemma_while(ls, i, pos),
        BlockKind::Def => lemma_def(ls, i, pos),
        BlockKind::Match => lemma_match(ls, i, pos),
        BlockKind::Loop => lemma_loop(ls, i, pos),
        BlockKind::Unknown => {},
    }
}

proof fn lemma_nested(ls: Seq<Seq<char>>, i: int, pos: SourcePosition, t: Seq<char>)
    requires
        source_fits(ls),
        0 <= i < ls.len(),
        pos.line <= (i + 1) * line_factor(ls),
        pos.column <= ls[i].len() + 1,
    ensures
        block_ok(sp_nested(ls, i, pos, t), i + 1, ls.len() as int),
    decreases ls.len() - i, 2int,
{
    match nested_kind(t) {
        BlockKind::If => lemma_if(ls, i, pos),
        BlockKind::While => lemma_while(ls, i, pos),
        BlockKind::Loop => lemma_loop(ls, i, pos),
        BlockKind::Match => lemma_match(ls, i, pos),
        _ => {},
    }
}

proof fn lemma_if(ls: Seq<Seq<char>>, i: int, pos: SourcePosition)
    requires
        source_fits(ls),
        0 <= i < ls.len(),
        pos.line <= (i + 1) * line_factor(ls),
        pos.column <= ls[i].len() + 1,
    ensures
        block_ok(sp_if(ls, i, pos), i + 1, ls.len() as int),
    decreases ls.len() - i, 1int,
{
    let ind = indent_of(ls[i]);
    lemma_block(ls, i + 1, ind, pos, seq![], i + 1);
    match sp_block(ls, i + 1, ind, pos, seq![]) {
        Outcome::Done((then, j)) => {
            if i < j < ls.len() && trim(ls[j]) == "else:"@ {
                let kk = line_factor(ls);
                lemma_step(i + 1, j, kk);
                lemma_cap(j, ls.len() as int);
                assert(line_fits(ls[j]));
                lemma_ws_run_bounds(ls[j], 0);
                let ep = SourcePosition { line: (pos.line + j) as usize, column: (indent_of(ls[j]) + 1) as usize };
                assert(mk_pos(pos.line + j, indent_of(ls[j]) + 1) == Some(ep));
                lemma_block(ls, j + 1, ind, ep, seq![], j + 1);
            }
        },
        _ => {},
    }
}

proof fn lemma_def(ls: Seq<Seq<char>>, i: int, pos: SourcePosition)
    requires
        source_fits(ls),
        0 <= i < ls.len(),
        pos.line <= (i + 1) * line_factor(ls),
        pos.column <= ls[i].len() + 1,
    ensures
        block_ok(sp_def(ls, i, pos), i + 1, ls.len() as int),
    decreases ls.len() - i, 1int,
{
    lemma_block(ls, i + 1, indent_of(ls[i]), pos, seq![], i + 1);
}

proof fn lemma_loop(ls: Seq<Seq<char>>, i: int, pos: SourcePosition)
    requires
        source_fits(ls),
        0 <= i < ls.len(),
        pos.line <= (i + 1) * line_factor(ls),
        pos.column <= ls[i].len() + 1,
    ensures
        block_ok(sp_loop(ls, i, pos), i + 1, ls.len() as int),
    decreases ls.len() - i, 1int,
{
    assert(line_fits(ls[i]));
    lemma_adjusted_some(pos, ls[i]);
    lemma_block(ls, i + 1, indent_of(ls[i]), pos, seq![], i + 1);
}

proof fn lemma_while(ls: Seq<Seq<char>>, i: int, pos: SourcePosition)
    requires
        source_fits(ls),
        0 <= i < ls.len(),
        pos.line <= (i + 1) * line_factor(ls),
        pos.column <= ls[i].len() + 1,
    ensures
        block_ok(sp_while(ls, i, pos), i + 1, ls.len() as int),
    decreases ls.len() - i, 1int,
{
    let ind = indent_of(ls[i]);
    lemma_while_items(ls, i + 1, ind, pos, WhileAcc { condition: None, body: seq![] }, i + 1);
}

proof fn lemma_while_items(ls: Seq<Seq<char>>, k: int, ind: int, pos: SourcePosition, acc: WhileAcc, s: int)
    requires
        source_fits(ls),
        1 <= s <= k <= ls.len(),
        pos.line <= s * line_factor(ls),
    ensures
        block_ok(sp_while_items(ls, k, ind, pos, acc), k, ls.len() as int),
    decreases ls.len() - k, 3int,
{
    if k < ls.len() {
        let l = ls[k];
        let ik = indent_of(l);
        if ik > ind {
            let t = trim(l);
            assert(line_fits(ls[k]));
            lemma_ws_run_bounds(l, 0);
            let kk = line_factor(ls);
            lemma_step(s, k, kk);
            lemma_cap(k, ls.len() as int);
            let p = SourcePosition { line: (pos.line + k) as usize, column: (ik + 1) as usize };
            assert(mk_pos(pos.line + k, ik + 1) == Some(p));
            if t == "condition:"@ {
                lemma_block(ls, k + 1, ik, p, seq![], k + 1);
                match sp_block(ls, k + 1, ik, p, seq![]) {
                    Outcome::Done((c, j)) => {
                        lemma_while_items(ls, j, ind, pos, WhileAcc { condition: Some(c), body: acc.body }, s);
                    },
                    _ => {},
                }
            } else if ends_with_colon(t) {
                lemma_nested(ls, k, p, t);
                match sp_nested(ls, k, p, t) {
                    Outcome::Done((op, j)) => {
                        lemma_while_items(
                            ls,
                            j,
                            ind,
                            pos,
                            WhileAcc { condition: acc.condition, body: acc.body.push(op) },
                            s,
                        );
                    },
                    _ => {},
                }
            } else {
                lemma_line(l, p);
                match sp_line(l, p) {
                    Outcome::Done(op) => {
                        lemma_while_items(
                            ls,
                            k + 1,
                            ind,
                            pos,
                            WhileAcc { condition: acc.condition, body: push_op(acc.body, op) },
                            s,
                        );
                    },
                    _ => {},
                }
            }
        }
    }
}

proof fn lemma_match(ls: Seq<Seq<char>>, i: int, pos: SourcePosition)
    requires
        source_fits(ls),
        0 <= i < ls.len(),
        pos.line <= (i + 1) * line_factor(ls),
        pos.column <= ls[i].len() + 1,
    ensures
        block_ok(sp_match(ls, i, pos), i + 1, ls.len() as int),
    decreases ls.len() - i, 1int,
{
    let ind = indent_of(ls[i]);
    lemma_match_items(ls, i + 1, ind, pos, MatchAcc { value: seq![], cases: seq![], default: None }, i + 1);
}

proof fn lemma_match_items(ls: Seq<Seq<char>>, k: int, ind: int, pos: SourcePosition, acc: MatchAcc, s: int)
    requires
        source_fits(ls),
        1 <= s <= k <= ls.len(),
        pos.line <= s * line_factor(ls),
    ensures
        block_ok(sp_match_items(ls, k, ind, pos, acc), k, ls.len() as int),
    decreases ls.len() - k, 3int,
{
    if k < ls.len() {
        let l = ls[k];
        let ik = indent_of(l);
        if ik > ind {
            let t = trim(l);
            assert(line_fits(ls[k]));
            lemma_ws_run_bounds(l, 0);
            let kk = line_factor(ls);
            lemma_step(s, k, kk);
            lemma_cap(k, ls.len() as int);
            let lp = SourcePosition { line: (pos.line + k) as usize, column: (ik + 1) as usize };
            assert(mk_pos(pos.line + k, ik + 1) == Some(lp));
            let bp = SourcePosition { line: (lp.line + 1) as usize, column: (ik + 1) as usize };
            assert(mk_pos(lp.line + 1, ik + 1) == Some(bp));
            lemma_adjusted_some(lp, l);
            lemma_block(ls, k + 1, ik, bp, seq![], k + 1);
            match sp_block(ls, k + 1, ik, bp, seq![]) {
                Outcome::Done((ops, j)) => {
                    lemma_match_items(ls, j, ind, pos, crate::compiler::grammar::match_add(acc, t, ops), s);
                },
                _ => {},
            }
            lemma_line(l, lp);
            match sp_line(l, lp) {
                Outcome::Done(op) => {
                    lemma_match_items(
                        ls,
                        k + 1,
                        ind,
                        pos,
                        MatchAcc { value: push_op(acc.value, op), cases: acc.cases, default: acc.default },
                        s,
                    );
                },
                _ => {},
            }
        }
    }
}

proof fn lemma_program(ls: Seq<Seq<char>>, i: int, acc: Seq<OpModel>)
    requires
        source_fits(ls),
        0 <= i <= ls.len(),
    ensures
        !(sp_program(ls, i, acc) is Panic),
    decreases ls.len() + 1 - i, 4int,
{
    if i < ls.len() {
        let l = ls[i];
        let t = trim(l);
        if t.len() == 0 {
            lemma_program(ls, i + 1, acc);
        } else {
            assert(line_fits(ls[i]));
            lemma_ws_run_bounds(l, 0);
            lemma_cap(i, ls.len() as int);
            let pos = SourcePosition { line: (i + 1) as usize, column: (indent_of(l) + 1) as usize };
            assert(mk_pos(i + 1, indent_of(l) + 1) == Some(pos));
            if ends_with_colon(t) {
                lemma_stmt(ls, i, pos, t);
                match sp_stmt(ls, i, pos, t) {
                    Outcome::Done((op, j)) => {
                        lemma_program(ls, j, push_op(acc, op));
                    },
                    _ => {},
                }
            } else {
                lemma_line(l, pos);
                match sp_line(l, pos) {
                    Outcome::Done(op) => {
                        lemma_program(ls, i + 1, push_op(acc, op));
                    },
                    _ => {},
                }
            }
        }
    }
}

/// A source whose line and column numbers fit in a `usize`
/// ([`source_fits`]), and whose `emit` lines with a quote hold a second quote, is
/// parsed without a panic.
pub proof fn lemma_fitting_source_parses(src: Seq<char>)
    requires
        source_fits(lines_of(src)),
    ensures
        !(program_spec(src) is Panic),
{
    lemma_program(lines_of(src), 0, seq![]);
}

/// Whether a line is one the compiler surely reads without a panic
/// ([`line_fits`]).
pub fn line_is_fit(line: &str) -> (b: bool)
    ensures
        b == line_fits(line@),
{
    let cs = chars_of(line);
    let s = cs.as_slice();
    let ghost l = line@;
    if s.len() > (usize::MAX - 2) / 5 {
        return false;
    }
    proof {
        lemma_trim_bounds(l);
    }
    let (a, b) = trim_bounds(s);
    assert(trim(l) == s@.subrange(a as int, b as int));
    if range_begins(s, a, b, "#") {
        return true;
    }
    let t = token_spans(s);
    assert(tokens(l).len() == t@.len());
    if t.len() == 0 {
        return true;
    }
    let (c0, c1) = t[0];
    assert(tokens(l)[0] == s@.subrange(c0 as int, c1 as int));
    if !word_is(s, c0, c1, "emit") {
        return true;
    }
    proof {
        lemma_find_from_bounds(l, '"', 0);
        lemma_rfind_bounds(l, '"', l.len() as int);
    }
    let f = find_char_from(s, '"', 0);
    if f >= s.len() {
        return true;
    }
    match rfind_char(s, '"') {
        Some(r) => r >= f + 1,
        None => false,
    }
}

/// Whether a source is one the compiler surely parses without a panic
/// ([`source_fits`]).
pub fn source_is_fit(source: &str) -> (b: bool)
    ensures
        b == source_fits(lines_of(source@)),
{
    let v = split_lines(source);
    let ghost ls = lines_of(source@);
    proof {
        lemma_strs_view(v@);
    }
    let n = v.len();
    if n > usize::MAX - 2 {
        assert(ls.len() * (ls.len() + 2) > usize::MAX) by (nonlinear_arith)
            requires
                ls.len() == n,
                n > usize::MAX - 2,
                usize::MAX > 2,
        ;
        return false;
    }
    match n.checked_mul(n + 2) {
        Some(_) => {},
        None => {
            return false;
        },
    }
    let mut i: usize = 0;
    while i < v.len()
        invariant
            i <= v@.len(),
            strs_view(v@) == ls,
            ls == lines_of(source@),
            ls.len() == v@.len(),
            forall|k: int| 0 <= k < i ==> #[trigger] line_fits(ls[k]),
        decreases v@.len() - i,
    {
        assert(ls[i as int] == v@[i as int]@);
        let fit = line_is_fit(v[i].as_str());
        if !fit {
            assert(v[i as int]@ == ls[i as int]);
            assert(!line_fits(ls[i as int]));
            assert(!source_fits(ls));
            return false;
        }
        i += 1;
    }
    true
}

/// [`parse_dsl`] on a source it surely parses without a panic; none for a
/// source that is not known to be such ([`source_fits`]).
pub fn parse_dsl_checked(source: &str) -> (r: Option<Result<Vec<Op>, CompilerError>>)
    ensures
        r is None <==> !source_fits(lines_of(source@)),
        r matches Some(x) ==> program_result(x, program_spec(source@)),
{
    if source_is_fit(source) {
        proof {
            lemma_fitting_source_parses(source@);
        }
        Some(parse_dsl(source))
    } else {
        None
    }
}

/// [`parse_dsl_with_stdlib`] on a source that, after the standard library,
/// it surely parses without a panic; none otherwise.
pub fn parse_dsl_with_stdlib_checked(source: &str) -> (r: Option<Result<Vec<Op>, CompilerError>>)
    ensures
        r is None <==> !source_fits(lines_of(with_stdlib(source@))),
        r matches Some(x) ==> program_result(x, program_spec(with_stdlib(source@))),
{
    let mut combined = get_stdlib_code();
    combined.append("\n\n");
    combined.append(source);
    if source_is_fit(combined.as_str()) {
        proof {
            lemma_fitting_source_parses(with_stdlib(source@));
        }
        Some(parse_dsl_with_stdlib(source))
    } else {
        None
    }
}

} // verus!
