//! A line-by-line parser for the flat form of the DSL: one instruction per
//! line, function bodies indented by four spaces under `def name(..):`, and
//! `if:` / `else:` whose bodies are the indented lines that follow. Errors
//! are plain messages.

use vstd::prelude::*;
use crate::compiler::common::{range_begins, word_is};
use crate::compiler::grammar::simple_op;
use crate::compiler::line_parser::simple_op_of;
use crate::numeric::{float_literal_ok, is_float_literal};
use crate::ops::{ops_model, strings_model, Op, OpModel};
use crate::text::{
    back_char, chars_of, ends_with, indent_of, find_char_from, find_from, lemma_back_char_bounds,
    lemma_back_ws_bounds, lemma_find_from_bounds, lemma_strs_view, lemma_trim_bounds,
    lemma_ws_run_bounds, lines_of, range_starts_with, skip_char_back, skip_ws, skip_ws_back,
    split_lines, split_on, split_trimmed, starts_with, string_of_range, strs_view, sub_chars,
    token_spans, tokens, trim, trim_bounds, trim_end, trim_start,
};

verus! {

/// The outcome of a parse: a value, an error message, or a panic of the
/// parser (a slice out of bounds).
pub enum Parsed<T> {
    Done(T),
    Error(Seq<char>),
    Panic,
}

/// The message of the standard float parser's error for a non-empty text
/// it refuses.
pub open spec fn float_error_text() -> Seq<char> {
    "invalid float literal"@
}

/// `s` without every leading copy of `p` (`str::trim_start_matches` with a
/// string).
pub open spec fn strip_leading(s: Seq<char>, p: Seq<char>) -> Seq<char>
    decreases s.len(),
{
    if p.len() > 0 && starts_with(s, p) {
        strip_leading(s.skip(p.len() as int), p)
    } else {
        s
    }
}

/// The single-word instructions of the flat form.
pub open spec fn flat_simple(cmd: Seq<char>) -> Option<OpModel> {
    if cmd == "dumpstate"@ {
        None
    } else {
        simple_op(cmd)
    }
}

/// The operations one line stands for.
pub open spec fn flat_line(line: Seq<char>) -> Parsed<Seq<OpModel>> {
    if starts_with(line, "#"@) {
        Parsed::Done(seq![])
    } else {
        let t = tokens(line);
        if t.len() == 0 {
            Parsed::Error("Empty line"@)
        } else {
            let instr = t[0];
            if instr == "push"@ {
                if t.len() < 2 {
                    Parsed::Error("Missing number for push"@)
                } else if is_float_literal(t[1]) {
                    Parsed::Done(seq![OpModel::Push(t[1])])
                } else {
                    Parsed::Error("Invalid number: "@ + float_error_text())
                }
            } else if instr == "emit"@ {
                let rest = trim(strip_leading(line, "emit"@));
                if starts_with(rest, "\""@) && ends_with(rest, "\""@) {
                    if rest.len() < 2 {
                        Parsed::Panic
                    } else {
                        Parsed::Done(seq![OpModel::Emit(rest.subrange(1, rest.len() - 1))])
                    }
                } else {
                    Parsed::Error("emit expects a quoted string"@)
                }
            } else if instr == "if:"@ {
                Parsed::Done(seq![OpModel::If { condition: seq![], then: seq![], else_: None }])
            } else if instr == "else:"@ {
                Parsed::Done(seq![])
            } else if instr == "load"@ {
                if t.len() < 2 { Parsed::Error("Missing variable for load"@) } else { Parsed::Done(seq![OpModel::Load(t[1])]) }
            } else if instr == "store"@ {
                if t.len() < 2 { Parsed::Error("Missing variable for store"@) } else { Parsed::Done(seq![OpModel::Store(t[1])]) }
            } else if instr == "call"@ {
                if t.len() < 2 {
                    Parsed::Error("Missing function name for call"@)
                } else {
                    Parsed::Done(seq![OpModel::Call(t[1])])
                }
            } else {
                match flat_simple(instr) {
                    Some(op) => Parsed::Done(seq![op]),
                    None => Parsed::Error("Unknown instruction: "@ + instr),
                }
            }
        }
    }
}

/// The name and parameters of `def name(x, y):`.
pub open spec fn flat_signature(line: Seq<char>) -> Parsed<(Seq<char>, Seq<Seq<char>>)> {
    let head = line.take(back_char(line, ':', line.len() as int, 0));
    let k = find_from(head, '(', 0);
    if k >= head.len() {
        Parsed::Error("Invalid function definition: "@ + line)
    } else {
        let name = trim(strip_leading(head.take(k), "def"@));
        let ps = head.skip(k + 1);
        let params_str = ps.take(back_char(ps, ')', ps.len() as int, 0));
        Parsed::Done((name, split_on(params_str, ',').map_values(|p: Seq<char>| trim(p)).filter(|p: Seq<char>| p.len() > 0)))
    }
}

/// The body of a function: the operations of the lines from `j` on that
/// begin with four spaces, and the line after them.
pub open spec fn flat_body(ls: Seq<Seq<char>>, j: int, body: Seq<OpModel>) -> Parsed<(Seq<OpModel>, int)>
    decreases ls.len() - j,
{
    if 0 <= j < ls.len() && starts_with(ls[j], "    "@) {
        match flat_line(trim_start(ls[j])) {
            Parsed::Done(o) => flat_body(ls, j + 1, body + o),
            Parsed::Error(e) => Parsed::Error(e),
            Parsed::Panic => Parsed::Panic,
        }
    } else {
        Parsed::Done((body, j))
    }
}

/// A function definition whose header `line` stands at line `i`: the
/// definition and the line after its body.
pub open spec fn flat_def(ls: Seq<Seq<char>>, i: int, line: Seq<char>) -> Parsed<(OpModel, int)> {
    match flat_signature(line) {
        Parsed::Done((name, params)) => match flat_body(ls, i + 1, seq![]) {
            Parsed::Done((body, j)) => Parsed::Done((OpModel::Def { name, params, body }, j)),
            Parsed::Error(e) => Parsed::Error(e),
            Parsed::Panic => Parsed::Panic,
        },
        Parsed::Error(e) => Parsed::Error(e),
        Parsed::Panic => Parsed::Panic,
    }
}

/// An open `if:` block: its then-branch and, once `else:` came, its
/// else-branch.
pub type OpenIf = Option<(Seq<OpModel>, Option<Seq<OpModel>>)>;

/// The `if` an open block becomes when it closes.
pub open spec fn closed_if(then: Seq<OpModel>, else_: Option<Seq<OpModel>>) -> OpModel {
    OpModel::If { condition: seq![], then, else_ }
}

/// The outcome of parsing the lines from `i` on, with the operations `ops`
/// so far and the open `if:` block `cur`.
pub open spec fn flat_program(ls: Seq<Seq<char>>, i: int, ops: Seq<OpModel>, cur: OpenIf) -> Parsed<Seq<OpModel>>
    decreases ls.len() - i,
{
    if i < 0 || i >= ls.len() {
        match cur {
            Some((t, e)) => Parsed::Done(ops.push(closed_if(t, e))),
            None => Parsed::Done(ops),
        }
    } else {
        let line = trim_end(ls[i]);
        if line.len() == 0 || starts_with(line, "#"@) {
            flat_program(ls, i + 1, ops, cur)
        } else if starts_with(line, "def "@) {
            match flat_def(ls, i, line) {
                Parsed::Done((def, j)) => if i < j <= ls.len() {
                    flat_program(ls, j, ops.push(def), cur)
                } else {
                    Parsed::Panic
                },
                Parsed::Error(e) => Parsed::Error(e),
                Parsed::Panic => Parsed::Panic,
            }
        } else if trim(line) == "if:"@ {
            flat_program(ls, i + 1, ops, Some((seq![], None)))
        } else if trim(line) == "else:"@ {
            match cur {
                Some((t, None)) => flat_program(ls, i + 1, ops, Some((t, Some(seq![])))),
                _ => Parsed::Error("Unexpected else block"@),
            }
        } else if starts_with(line, "    "@) {
            match flat_line(trim_start(line)) {
                Parsed::Done(inner) => match cur {
                    Some((t, Some(e))) => flat_program(ls, i + 1, ops, Some((t, Some(e + inner)))),
                    Some((t, None)) => flat_program(ls, i + 1, ops, Some((t + inner, None))),
                    None => Parsed::Error("Unexpected indented block"@),
                },
                Parsed::Error(e) => Parsed::Error(e),
                Parsed::Panic => Parsed::Panic,
            }
        } else {
            let ops1 = match cur {
                Some((t, e)) => ops.push(closed_if(t, e)),
                None => ops,
            };
            match flat_line(line) {
                Parsed::Done(o) => flat_program(ls, i + 1, ops1 + o, None),
                Parsed::Error(e) => Parsed::Error(e),
                Parsed::Panic => Parsed::Panic,
            }
        }
    }
}

/// Whether a line holds nothing but whitespace.
pub open spec fn blank_line(l: Seq<char>) -> bool {
    indent_of(l) >= l.len()
}

/// The least indentation among the lines that are not blank, if any is.
pub open spec fn least_indent(ls: Seq<Seq<char>>) -> Option<int>
    decreases ls.len(),
{
    if ls.len() == 0 {
        None
    } else {
        let r = least_indent(ls.drop_last());
        let l = ls[ls.len() - 1];
        if blank_line(l) {
            r
        } else {
            match r {
                None => Some(indent_of(l)),
                Some(m) => Some(if indent_of(l) < m { indent_of(l) } else { m }),
            }
        }
    }
}

/// The indentation that the whole program shares: the least indentation of
/// its lines that are not blank (none when every line is blank).
pub open spec fn common_indent(ls: Seq<Seq<char>>) -> int {
    match least_indent(ls) {
        Some(b) => b,
        None => 0,
    }
}

/// A line without the first `b` characters (empty when it is shorter).
pub open spec fn dedent_line(l: Seq<char>, b: int) -> Seq<char> {
    if b <= l.len() {
        l.skip(b)
    } else {
        seq![]
    }
}

/// The lines of a program with their common indentation taken off.
pub open spec fn dedented(ls: Seq<Seq<char>>) -> Seq<Seq<char>> {
    Seq::new(ls.len(), |k: int| dedent_line(ls[k], common_indent(ls)))
}

/// The lines the flat form is read from: the lines of the source, with the
/// indentation that they all share taken off.
pub open spec fn flat_lines(src: Seq<char>) -> Seq<Seq<char>> {
    dedented(lines_of(src))
}

/// The common indentation of `lines`.
fn common_indent_of(lines: &[String]) -> (r: usize)
    ensures
        r == common_indent(strs_view(lines@)),
{
    let ghost ls = strs_view(lines@);
    proof {
        lemma_strs_view(lines@);
    }
    let mut best: Option<usize> = None;
    let mut i: usize = 0;
    assert(ls.take(0) =~= Seq::<Seq<char>>::empty());
    while i < lines.len()
        invariant
            i <= lines@.len(),
            ls == strs_view(lines@),
            ls.len() == lines@.len(),
            match best {
                Some(b) => least_indent(ls.take(i as int)) == Some(b as int),
                None => least_indent(ls.take(i as int)) is None,
            },
        decreases lines@.len() - i,
    {
        assert(ls[i as int] == lines@[i as int]@);
        assert(ls.take(i + 1).drop_last() =~= ls.take(i as int));
        assert(ls.take(i + 1)[i as int] == ls[i as int]);
        let cs = chars_of(lines[i].as_str());
        let s = cs.as_slice();
        let k = skip_ws(s, 0);
        proof {
            lemma_ws_run_bounds(s@, 0);
        }
        if k < s.len() {
            best = match best {
                None => Some(k),
                Some(m) => Some(if k < m { k } else { m }),
            };
        }
        i = i + 1;
    }
    assert(ls.take(i as int) =~= ls);
    match best {
        Some(b) => b,
        None => 0,
    }
}

/// `lines` with the first `b` characters of each taken off.
fn dedent_all(lines: &[String], b: usize) -> (r: Vec<String>)
    ensures
        strs_view(r@) == Seq::new(lines@.len(), |k: int| dedent_line(lines@[k]@, b as int)),
{
    let mut r: Vec<String> = Vec::new();
    let mut i: usize = 0;
    while i < lines.len()
        invariant
            i <= lines@.len(),
            strs_view(r@) =~= Seq::new(i as nat, |k: int| dedent_line(lines@[k]@, b as int)),
        decreases lines@.len() - i,
    {
        let cs = chars_of(lines[i].as_str());
        let s = cs.as_slice();
        let d = if b <= s.len() {
            string_of_range(s, b, s.len())
        } else {
            String::new()
        };
        assert(d@ =~= dedent_line(lines@[i as int]@, b as int));
        let ghost before = r@;
        r.push(d);
        proof {
            lemma_strs_view(r@);
            lemma_strs_view(before);
            assert forall|k: int| 0 <= k < i + 1 implies #[trigger] strs_view(r@)[k] == dedent_line(
                lines@[k]@,
                b as int,
            ) by {
                if k < i {
                    assert(strs_view(before)[k] == dedent_line(lines@[k]@, b as int));
                    assert(r@[k] == before[k]);
                }
            }
        }
        i = i + 1;
    }
    r
}

/// How an executable result stands to what the grammar says.
pub open spec fn flat_result(r: Result<Vec<Op>, String>, o: Parsed<Seq<OpModel>>) -> bool {
    match r {
        Ok(v) => o == Parsed::Done(ops_model(v@)),
        Err(m) => o == Parsed::<Seq<OpModel>>::Error(m@),
    }
}

/// The number of characters that `strip_leading(s, p)` drops.
fn strip_leading_len(s: &[char], p: &str) -> (k: usize)
    ensures
        k <= s@.len(),
        strip_leading(s@, p@) == s@.skip(k as int),
{
    let pc = chars_of(p);
    let mut k: usize = 0;
    assert(s@.skip(0) =~= s@);
    if pc.len() == 0 {
        return 0;
    }
    while k < s.len() && range_starts_with(s, k, s.len(), pc.as_slice())
        invariant
            k <= s@.len(),
            pc@ == p@,
            pc@.len() > 0,
            strip_leading(s@, p@) == strip_leading(s@.skip(k as int), p@),
        decreases s@.len() - k,
    {
        assert(s@.subrange(k as int, s@.len() as int) =~= s@.skip(k as int));
        assert(s@.skip(k as int).skip(pc@.len() as int) =~= s@.skip(k + pc@.len()));
        k = k + pc.len();
    }
    proof {
        if k < s@.len() {
            assert(s@.subrange(k as int, s@.len() as int) =~= s@.skip(k as int));
        } else {
            assert(s@.skip(k as int) =~= Seq::<char>::empty());
            assert(!starts_with(Seq::<char>::empty(), p@));
        }
    }
    k
}

fn one_op(op: Op) -> (v: Vec<Op>)
    ensures
        ops_model(v@) == seq![op_model_of(op)],
{
    let mut v: Vec<Op> = Vec::new();
    v.push(op);
    assert(ops_model(v@) =~= seq![op_model_of(op)]);
    v
}

pub open spec fn op_model_of(op: Op) -> OpModel {
    crate::ops::op_model(op)
}

fn no_ops() -> (v: Vec<Op>)
    ensures
        ops_model(v@) == Seq::<OpModel>::empty(),
{
    let v: Vec<Op> = Vec::new();
    assert(ops_model(v@) =~= Seq::<OpModel>::empty());
    v
}

/// Parses one line of the flat form.
pub fn parse_line(line: &str) -> (r: Result<Vec<Op>, String>)
    requires
        !(flat_line(line@) is Panic),
    ensures
        flat_result(r, flat_line(line@)),
{
    let cs = chars_of(line);
    let s = cs.as_slice();
    if s.len() > 0 && s[0] == '#' {
        proof {
            reveal_strlit("#");
            assert(s@.subrange(0, 1) =~= "#"@);
        }
        return Ok(no_ops());
    }
    proof {
        reveal_strlit("#");
        if starts_with(s@, "#"@) {
            assert(s@[0] == s@.subrange(0, 1)[0]);
        }
    }
    let spans = token_spans(s);
    if spans.len() == 0 {
        return Err(String::from_str("Empty line"));
    }
    let (a, b) = spans[0];
    assert(spans@[0].0 <= spans@[0].1 <= s@.len());
    let ghost t = tokens(line@);
    assert(t[0] == s@.subrange(a as int, b as int));
    let has_arg = spans.len() >= 2;
    if word_is(s, a, b, "push") {
        if !has_arg {
            return Err(String::from_str("Missing number for push"));
        }
        let (a1, b1) = spans[1];
        assert(spans@[1].0 <= spans@[1].1 <= s@.len());
        assert(t[1] == s@.subrange(a1 as int, b1 as int));
        if float_literal_ok(s, a1, b1) {
            return Ok(one_op(Op::Push(string_of_range(s, a1, b1))));
        }
        proof {
            reveal_strlit("Invalid number: ");
            reveal_strlit("invalid float literal");
            reveal_strlit("Invalid number: invalid float literal");
            assert("Invalid number: "@ + float_error_text() =~= "Invalid number: invalid float literal"@);
        }
        return Err(String::from_str("Invalid number: invalid float literal"));
    }
    if word_is(s, a, b, "emit") {
        let k = strip_leading_len(s, "emit");
        let rest = sub_chars(s, k, s.len());
        assert(rest@ =~= s@.skip(k as int));
        let (lo, hi) = trim_bounds(rest.as_slice());
        let ghost rt = trim(strip_leading(line@, "emit"@));
        assert(rest@.subrange(lo as int, hi as int) == rt);
        proof {
            reveal_strlit("\"");
        }
        if hi > lo && rest[lo] == '"' && rest[hi - 1] == '"' {
            assert(rt.subrange(0, 1) =~= "\""@);
            assert(rt.subrange(rt.len() - 1, rt.len() as int) =~= "\""@);
            let inner = string_of_range(rest.as_slice(), lo + 1, hi - 1);
            assert(inner@ =~= rt.subrange(1, rt.len() - 1));
            return Ok(one_op(Op::Emit(inner)));
        }
        proof {
            if starts_with(rt, "\""@) && ends_with(rt, "\""@) {
                assert(rt[0] == rt.subrange(0, 1)[0]);
                assert(rt[rt.len() - 1] == rt.subrange(rt.len() - 1, rt.len() as int)[0]);
            }
        }
        return Err(String::from_str("emit expects a quoted string"));
    }
    if word_is(s, a, b, "if:") {
        let empty1: Vec<Op> = no_ops();
        let empty2: Vec<Op> = no_ops();
        return Ok(one_op(Op::If { condition: empty1, then: empty2, else_: None }));
    }
    if word_is(s, a, b, "else:") {
        return Ok(no_ops());
    }
    if word_is(s, a, b, "load") || word_is(s, a, b, "store") || word_is(s, a, b, "call") {
        let which: u8 = if word_is(s, a, b, "load") { 0 } else if word_is(s, a, b, "store") { 1 } else { 2 };
        if !has_arg {
            return Err(String::from_str(
                if which == 0 {
                    "Missing variable for load"
                } else if which == 1 {
                    "Missing variable for store"
                } else {
                    "Missing function name for call"
                },
            ));
        }
        let (a1, b1) = spans[1];
        assert(spans@[1].0 <= spans@[1].1 <= s@.len());
        assert(t[1] == s@.subrange(a1 as int, b1 as int));
        let name = string_of_range(s, a1, b1);
        return Ok(one_op(if which == 0 { Op::Load(name) } else if which == 1 { Op::Store(name) } else { Op::Call(name) }));
    }
    if !word_is(s, a, b, "dumpstate") {
        if let Some(op) = simple_op_of(s, a, b) {
            return Ok(one_op(op));
        }
    }
    let mut m = String::from_str("Unknown instruction: ");
    let w = string_of_range(s, a, b);
    m.append(w.as_str());
    Err(m)
}

/// The trimmed, non-empty pieces of `s` separated by commas.
fn nonempty_params(s: &str) -> (r: Vec<String>)
    ensures
        strings_model(r@) == split_on(s@, ',').map_values(|p: Seq<char>| trim(p)).filter(|p: Seq<char>| p.len() > 0),
{
    let pieces = split_trimmed(s, ',');
    let ghost all = split_on(s@, ',').map_values(|p: Seq<char>| trim(p));
    proof {
        lemma_strs_view(pieces@);
    }
    assert(strs_view(pieces@) == all);
    let mut r: Vec<String> = Vec::new();
    let mut i: usize = 0;
    while i < pieces.len()
        invariant
            i <= pieces@.len(),
            strs_view(pieces@) == all,
            strings_model(r@) == all.take(i as int).filter(|p: Seq<char>| p.len() > 0),
        decreases pieces@.len() - i,
    {
        proof {
            assert(all.take(i + 1).drop_last() =~= all.take(i as int));
            reveal(Seq::filter);
            assert(all[i as int] == pieces@[i as int]@);
        }
        let ghost before = r@;
        if !pieces[i].as_str().is_empty() {
            r.push(pieces[i].clone());
            assert(strings_model(r@) =~= strings_model(before).push(pieces@[i as int]@));
        }
        i += 1;
    }
    assert(all.take(i as int) =~= all);
    r
}

/// The name and parameters of a flat function header `def name(x, y):`; a
/// header without `(` is refused with "Invalid function definition: <line>".
pub fn parse_function_signature(line: &str) -> (r: Result<(String, Vec<String>), String>)
    ensures
        match flat_signature(line@) {
            Parsed::Done((n, ps)) => r matches Ok((name, params)) && name@ == n && strings_model(params@) == ps,
            Parsed::Error(e) => r matches Err(m) && m@ == e,
            Parsed::Panic => false,
        },
{
    let cs = chars_of(line);
    let s = cs.as_slice();
    proof {
        lemma_back_char_bounds(s@, ':', s@.len() as int, 0);
    }
    let e = skip_char_back(s, ':', s.len(), 0);
    let head = sub_chars(s, 0, e);
    assert(head@ =~= line@.take(back_char(line@, ':', line@.len() as int, 0)));
    proof {
        lemma_find_from_bounds(head@, '(', 0);
    }
    let k = find_char_from(head.as_slice(), '(', 0);
    if k >= head.len() {
        let mut m = String::from_str("Invalid function definition: ");
        m.append(line);
        return Err(m);
    }
    let before = sub_chars(head.as_slice(), 0, k);
    assert(before@ =~= head@.take(k as int));
    let d = strip_leading_len(before.as_slice(), "def");
    let name_part = sub_chars(before.as_slice(), d, before.len());
    assert(name_part@ =~= before@.skip(d as int));
    let (n0, n1) = trim_bounds(name_part.as_slice());
    let name = string_of_range(name_part.as_slice(), n0, n1);
    let ps = sub_chars(head.as_slice(), k + 1, head.len());
    assert(ps@ =~= head@.skip(k + 1));
    proof {
        lemma_back_char_bounds(ps@, ')', ps@.len() as int, 0);
    }
    let e2 = skip_char_back(ps.as_slice(), ')', ps.len(), 0);
    let params_text = string_of_range(ps.as_slice(), 0, e2);
    assert(params_text@ =~= ps@.take(e2 as int));
    let params = nonempty_params(params_text.as_str());
    Ok((name, params))
}

/// Appends the operations of `src` to `dst`.
pub(crate) fn extend_ops(dst: &mut Vec<Op>, src: Vec<Op>)
    ensures
        ops_model(final(dst)@) == ops_model(old(dst)@) + ops_model(src@),
{
    let ghost s0 = src@;
    let mut src = src;
    dst.append(&mut src);
    assert(ops_model(final(dst)@) =~= ops_model(old(dst)@) + ops_model(s0));
}

/// The model of an open `if:` block.
pub open spec fn open_if_model(cur: Option<(Vec<Op>, Option<Vec<Op>>)>) -> OpenIf {
    match cur {
        Some((t, e)) => Some((
            ops_model(t@),
            match e {
                Some(v) => Some(ops_model(v@)),
                None => None,
            },
        )),
        None => None,
    }
}

/// The `if` operation an open block closes into.
fn close_if(then: Vec<Op>, else_: Option<Vec<Op>>) -> (op: Op)
    ensures
        crate::ops::op_model(op) == closed_if(ops_model(then@), match else_ {
            Some(v) => Some(ops_model(v@)),
            None => None,
        }),
{
    let condition = no_ops();
    Op::If { condition, then, else_ }
}

/// The text of `s[lo..hi]` without its leading whitespace.
fn trimmed_start(s: &[char], lo: usize, hi: usize) -> (r: String)
    requires
        lo <= hi <= s@.len(),
    ensures
        r@ == trim_start(s@.subrange(lo as int, hi as int)),
{
    let v = sub_chars(s, lo, hi);
    proof {
        lemma_ws_run_bounds(v@, 0);
    }
    let k = skip_ws(v.as_slice(), 0);
    let r = string_of_range(v.as_slice(), k, v.len());
    assert(r@ =~= v@.skip(k as int));
    r
}

/// The function definition whose header `line` stands at line `i` of
/// `lines`, and the line after its body.
fn parse_def(lines: &[String], i: usize, line: &str) -> (r: Result<(Op, usize), String>)
    requires
        i < lines@.len(),
        !(flat_def(strs_view(lines@), i as int, line@) is Panic),
    ensures
        match r {
            Ok((op, j)) => flat_def(strs_view(lines@), i as int, line@) == Parsed::Done(
                (crate::ops::op_model(op), j as int),
            ) && i < j <= lines@.len(),
            Err(m) => flat_def(strs_view(lines@), i as int, line@) == Parsed::<(OpModel, int)>::Error(m@),
        },
{
    let ghost ls = strs_view(lines@);
    proof {
        lemma_strs_view(lines@);
    }
    let (name, params) = match parse_function_signature(line) {
        Ok(p) => p,
        Err(m) => {
            return Err(m);
        },
    };
    let mut body: Vec<Op> = Vec::new();
    assert(ops_model(body@) =~= Seq::<OpModel>::empty());
    let n = lines.len();
    assert(i < n);
    let mut j: usize = i + 1;
    while j < lines.len() && crate::text::str_starts_with(lines[j].as_str(), "    ")
        invariant
            ls == strs_view(lines@),
            ls.len() == lines@.len(),
            i < j <= lines@.len(),
            flat_body(ls, i + 1, seq![]) == flat_body(ls, j as int, ops_model(body@)),
            !(flat_body(ls, i + 1, seq![]) is Panic),
            flat_signature(line@) == Parsed::Done((name@, strings_model(params@))),
            !(flat_def(strs_view(lines@), i as int, line@) is Panic),
        decreases lines@.len() - j,
    {
        assert(ls[j as int] == lines@[j as int]@);
        let jc = chars_of(lines[j].as_str());
        let inner_text = trimmed_start(jc.as_slice(), 0, jc.len());
        assert(jc@.subrange(0, jc@.len() as int) =~= jc@);
        let inner = match parse_line(inner_text.as_str()) {
            Ok(v) => v,
            Err(m) => {
                assert(flat_body(ls, j as int, ops_model(body@)) == Parsed::<(Seq<OpModel>, int)>::Error(m@));
                return Err(m);
            },
        };
        extend_ops(&mut body, inner);
        j = j + 1;
    }
    proof {
        if j < lines@.len() {
            assert(ls[j as int] == lines@[j as int]@);
        }
    }
    Ok((Op::Def { name, params, body }, j))
}

/// Parses source in the flat form. The indentation that all its lines
/// share is taken off first, so a program may be indented as a whole.
/// Blank lines and lines that begin with `#` are skipped; `def name(..):`
/// takes the following lines that begin with four spaces as its body; `if:`
/// opens a block (dropping one still open), `else:` switches it to its
/// else-branch, indented lines go to the open block, and the next
/// unindented instruction closes it.
pub fn parse_dsl(source: &str) -> (r: Result<Vec<Op>, String>)
    requires
        !(flat_program(flat_lines(source@), 0, seq![], None) is Panic),
    ensures
        flat_result(r, flat_program(flat_lines(source@), 0, seq![], None)),
{
    let raw_vec = split_lines(source);
    proof {
        lemma_strs_view(raw_vec@);
    }
    let base = common_indent_of(raw_vec.as_slice());
    let line_vec = dedent_all(raw_vec.as_slice(), base);
    let lines = line_vec.as_slice();
    let ghost ls = strs_view(lines@);
    proof {
        lemma_strs_view(lines@);
        let raw = lines_of(source@);
        assert(strs_view(raw_vec@) == raw);
        assert forall|k: int| 0 <= k < raw.len() implies raw_vec@[k]@ == #[trigger] raw[k] by {}
        assert(ls =~= flat_lines(source@));
    }
    assert(ls == flat_lines(source@));
    let mut ops: Vec<Op> = Vec::new();
    assert(ops_model(ops@) =~= Seq::<OpModel>::empty());
    let mut cur: Option<(Vec<Op>, Option<Vec<Op>>)> = None;
    let mut i: usize = 0;
    while i < lines.len()
        invariant
            ls == strs_view(lines@),
            ls == flat_lines(source@),
            ls.len() == lines@.len(),
            i <= lines@.len(),
            flat_program(ls, 0, seq![], None) == flat_program(ls, i as int, ops_model(ops@), open_if_model(cur)),
            !(flat_program(ls, 0, seq![], None) is Panic),
        decreases lines@.len() - i,
    {
        let ghost gi = i as int;
        let raw = lines[i].as_str();
        assert(ls[gi] == raw@);
        let cs = chars_of(raw);
        let s = cs.as_slice();
        proof {
            lemma_back_ws_bounds(s@, s@.len() as int, 0);
        }
        let e = skip_ws_back(s, s.len(), 0);
        let ghost line = s@.subrange(0, e as int);
        assert(line =~= trim_end(raw@));
        if e == 0 {
            i = i + 1;
            continue;
        }
        proof {
            reveal_strlit("#");
            assert(starts_with(line, "#"@) <==> s@[0] == '#') by {
                assert(line.subrange(0, 1)[0] == line[0]);
                if s@[0] == '#' {
                    assert(line.subrange(0, 1) =~= "#"@);
                }
            }
        }
        if s[0] == '#' {
            i = i + 1;
            continue;
        }
        if range_begins(s, 0, e, "def ") {
            let line_str = string_of_range(s, 0, e);
            assert(line_str@ == line);
            let (def, j) = match parse_def(lines, i, line_str.as_str()) {
                Ok(p) => p,
                Err(m) => {
                    assert(flat_program(ls, gi, ops_model(ops@), open_if_model(cur)) == Parsed::<Seq<OpModel>>::Error(m@));
                    return Err(m);
                },
            };
            let ghost ops_before = ops@;
            ops.push(def);
            proof {
                crate::ops::lemma_ops_model_push(ops_before, def);
            }
            i = j;
            continue;
        }
        let (t0, t1) = trim_bounds(s);
        proof {
            lemma_trim_bounds(line);
            lemma_trim_bounds(s@);
        }
        let v = sub_chars(s, 0, e);
        let (u0, u1) = trim_bounds(v.as_slice());
        assert(v@.subrange(u0 as int, u1 as int) == trim(line));
        if word_is(v.as_slice(), u0, u1, "if:") {
            let t: Vec<Op> = no_ops();
            cur = Some((t, None));
            i = i + 1;
            continue;
        }
        if word_is(v.as_slice(), u0, u1, "else:") {
            match cur {
                Some((t, None)) => {
                    let el: Vec<Op> = no_ops();
                    cur = Some((t, Some(el)));
                },
                _ => {
                    assert(flat_program(ls, gi, ops_model(ops@), open_if_model(cur)) == Parsed::<Seq<OpModel>>::Error("Unexpected else block"@));
                    return Err(String::from_str("Unexpected else block"));
                },
            }
            i = i + 1;
            continue;
        }
        if range_begins(s, 0, e, "    ") {
            let inner_text = trimmed_start(s, 0, e);
            let inner = match parse_line(inner_text.as_str()) {
                Ok(v) => v,
                Err(m) => {
                    return Err(m);
                },
            };
            match cur {
                Some((t, Some(mut el))) => {
                    extend_ops(&mut el, inner);
                    cur = Some((t, Some(el)));
                },
                Some((mut t, None)) => {
                    extend_ops(&mut t, inner);
                    cur = Some((t, None));
                },
                None => {
                    return Err(String::from_str("Unexpected indented block"));
                },
            }
            i = i + 1;
            continue;
        }
        let ghost ops_before = ops_model(ops@);
        match cur {
            Some((t, el)) => {
                let op = close_if(t, el);
                ops.push(op);
                assert(ops_model(ops@) =~= ops_before.push(crate::ops::op_model(op)));
            },
            None => {},
        }
        cur = None;
        let line_str = string_of_range(s, 0, e);
        let line_ops = match parse_line(line_str.as_str()) {
            Ok(v) => v,
            Err(m) => {
                return Err(m);
            },
        };
        extend_ops(&mut ops, line_ops);
        i = i + 1;
    }
    match cur {
        Some((t, el)) => {
            let ghost ops_before = ops_model(ops@);
            let op = close_if(t, el);
            ops.push(op);
            assert(ops_model(ops@) =~= ops_before.push(crate::ops::op_model(op)));
        },
        None => {},
    }
    Ok(ops)
}

} // verus!
