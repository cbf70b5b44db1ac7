use vstd::prelude::*;

use crate::compiler::common::{range_begins, trimmed_string};
use crate::text::sub_chars;
use crate::compiler::grammar::{def_header_ok, param_names, sp_def, sp_signature, Outcome};
use crate::compiler::line_parser::{parse_block, stmt_result};
use crate::compiler::{err_model, CompilerError, SourcePosition};
use crate::ops::{lemma_strings_model_push, strings_model, Op};
use crate::text::{
    chars_of, find_char_from, lemma_back_char_bounds, lemma_find_from_bounds, lemma_trim_bounds,
    range_has_char, skip_char_back, skip_ws, span_texts, split_on, split_spans, strs_view,
    trim_bounds,
};

verus! {

/// Parses a function definition `def name(a, b):` at `*current_line` and its
/// indented body.  On success `*current_line` is the first line after it;
/// when the header itself is refused it stays where it was.
pub fn parse_function_block(
    lines: &[String],
    current_line: &mut usize,
    pos: SourcePosition,
) -> (r: Result<Op, CompilerError>)
    requires
        !(sp_def(strs_view(lines@), *old(current_line) as int, pos) is Panic),
    ensures
        stmt_result(
            r,
            *final(current_line),
            sp_def(strs_view(lines@), *old(current_line) as int, pos),
        ),
        r is Ok ==> *old(current_line) < *final(current_line) <= lines@.len(),
        !def_header_ok(strs_view(lines@)[*old(current_line) as int], pos) ==> (r is Err && *final(current_line)
            == *old(current_line)),
    decreases lines@.len() - *old(current_line), 1int,
{
    let ghost ls = strs_view(lines@);
    proof {
        crate::text::lemma_strs_view(lines@);
    }
    let n_lines = lines.len();
    let ghost i = *current_line as int;
    let line = lines[*current_line].as_str();
    assert(ls[i] == line@);
    let cs = chars_of(line);
    let s = cs.as_slice();
    assert(s@.subrange(0, s@.len() as int) =~= s@);
    if !range_has_char(s, 0, s.len(), '(') || !range_has_char(s, 0, s.len(), ')') {
        return Err(CompilerError::InvalidFunctionFormat(String::from_str(line), pos.line, pos.column));
    }
    let (name, params) = match parse_function_signature(line, pos) {
        Ok(np) => np,
        Err(e) => {
            return Err(e);
        },
    };
    let current_indent = skip_ws(s, 0);
    *current_line = *current_line + 1;
    let body = match parse_block(lines, current_line, current_indent, pos) {
        Ok(v) => v,
        Err(e) => {
            return Err(e);
        },
    };
    Ok(Op::Def { name, params, body })
}

/// Splits a function header `def name(a, b):` into its name and parameters.
pub fn parse_function_signature(line: &str, pos: SourcePosition) -> (r: Result<
    (String, Vec<String>),
    CompilerError,
>)
    ensures
        match r {
            Ok((name, params)) => sp_signature(line@, pos) == Outcome::Done(
                (name@, strings_model(params@)),
            ),
            Err(e) => sp_signature(line@, pos) == Outcome::<(Seq<char>, Seq<Seq<char>>)>::Fail(
                err_model(e),
            ),
        },
{
    let cs = chars_of(line);
    let s = cs.as_slice();
    proof {
        lemma_back_char_bounds(s@, ':', s@.len() as int, 0);
    }
    let e = skip_char_back(s, ':', s.len(), 0);
    let t = sub_chars(s, 0, e);
    assert(t@ =~= crate::text::trim_end_char(line@, ':'));
    proof {
        lemma_find_from_bounds(t@, '(', 0);
    }
    let k = find_char_from(t.as_slice(), '(', 0);
    if k >= t.len() {
        return Err(
            CompilerError::InvalidFunctionDefinition(String::from_str(line), pos.line, pos.column),
        );
    }
    let head = sub_chars(t.as_slice(), 0, k);
    assert(head@ =~= t@.take(k as int));
    proof {
        lemma_trim_bounds(head@);
    }
    let (a, b) = trim_bounds(head.as_slice());
    if !range_begins(head.as_slice(), a, b, "def ") {
        return Err(CompilerError::InvalidFunctionStart(String::from_str(line), pos.line, pos.column));
    }
    proof {
        reveal_strlit("def ");
    }
    let ghost np = head@.subrange(a as int, b as int);
    assert(np.skip(4) =~= head@.subrange(a + 4, b as int));
    let name = trimmed_string(head.as_slice(), a + 4, b);
    let rest = sub_chars(t.as_slice(), k + 1, t.len());
    assert(rest@ =~= t@.skip(k + 1));
    proof {
        lemma_back_char_bounds(rest@, ')', rest@.len() as int, 0);
    }
    let e2 = skip_char_back(rest.as_slice(), ')', rest.len(), 0);
    let ps = sub_chars(rest.as_slice(), 0, e2);
    assert(ps@ =~= crate::text::trim_end_char(rest@, ')'));
    let pieces = split_spans(ps.as_slice(), ',');
    let ghost texts = split_on(ps@, ',');
    assert(texts == span_texts(ps@, pieces@));
    let mut params: Vec<String> = Vec::new();
    let mut n: usize = 0;
    assert(texts.take(0) =~= Seq::<Seq<char>>::empty());
    assert(strings_model(params@) =~= Seq::<Seq<char>>::empty());
    while n < pieces.len()
        invariant
            n <= pieces@.len(),
            texts == span_texts(ps@, pieces@),
            crate::text::spans_inside(ps@, pieces@),
            strings_model(params@) == param_names(texts.take(n as int)),
        decreases pieces@.len() - n,
    {
        let (p0, p1) = pieces[n];
        let x = trimmed_string(ps.as_slice(), p0, p1);
        assert(texts.take(n + 1).drop_last() =~= texts.take(n as int));
        assert(texts.take(n + 1).last() == ps@.subrange(p0 as int, p1 as int));
        if !x.as_str().is_empty() {
            let ghost old_p = params@;
            params.push(x);
            proof {
                lemma_strings_model_push(old_p, x);
            }
        }
        n = n + 1;
    }
    assert(texts.take(pieces@.len() as int) =~= texts);
    Ok((name, params))
}

} // verus!
