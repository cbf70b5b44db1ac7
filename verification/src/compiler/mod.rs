use vstd::prelude::*;

pub mod common;
pub mod flat;
pub mod function_block;
pub mod grammar;
pub mod if_block;
pub mod line_parser;
pub mod loop_block;
pub mod macros;
pub mod match_block;
pub mod no_nops;
pub mod no_panics;
pub mod parse_dsl;
pub mod stdlib;
pub mod while_block;

use crate::numeric::{dec_str, decimal_string};
use crate::compiler::common::{pos_at, range_finishes};
use crate::compiler::grammar::{sp_program, Outcome};
use crate::compiler::line_parser::parse_line;
use crate::compiler::stdlib::{get_stdlib_code, STDLIB_SOURCE};
use crate::ops::{all_nop_free, lemma_ops_model_empty, ops_model, push_unless_nop, Op, OpModel};
use crate::text::{
    chars_of, lemma_strs_view, lemma_trim_bounds, lines_of, skip_ws, split_lines,
    strs_view, trim_bounds,
};

verus! {

/// A line and column in DSL source, both counted from 1.
#[derive(Debug, Clone, Copy, PartialEq, Eq, Structural)]
pub struct SourcePosition {
    pub line: usize,
    pub column: usize,
}

impl SourcePosition {
    pub fn new(line: usize, column: usize) -> (r: Self)
        ensures
            r.line == line,
            r.column == column,
    {
        SourcePosition { line, column }
    }
}

/// Errors that the DSL compiler reports, each with the place it refers to.
#[derive(Debug, Clone, PartialEq)]
pub enum CompilerError {
    UnknownCommand(String, usize, usize),
    UnknownBlockType(String, usize, usize),
    InvalidFunctionDefinition(String, usize, usize),
    InvalidFunctionFormat(String, usize, usize),
    InvalidFunctionStart(String, usize, usize),
    MissingPushValue(usize, usize),
    InvalidPushValue(String, usize, usize),
    MissingEmitQuotes(usize, usize),
    InvalidEmitEventFormat(usize, usize),
    MissingVariable(String, usize, usize),
    MissingFunctionName(usize, usize),
    MissingAssertDepth(usize, usize),
    InvalidAssertDepth(String, usize, usize),
    InsufficientAssertDepth(usize, usize),
    InvalidCaseValue(String, usize, usize),
    MissingMatchValue(usize, usize),
    InvalidLoopFormat(String, usize, usize),
    InvalidLoopCount(String, usize, usize),
    UnexpectedEOF(usize),
    InvalidIndentation(usize),
    MissingParameter(String, usize, usize),
    InvalidParameterValue(String, usize, usize),
    SyntaxError(String, SourcePosition),
}

/// The mathematical value of a [`CompilerError`].
pub enum ErrorModel {
    UnknownCommand(Seq<char>, usize, usize),
    UnknownBlockType(Seq<char>, usize, usize),
    InvalidFunctionDefinition(Seq<char>, usize, usize),
    InvalidFunctionFormat(Seq<char>, usize, usize),
    InvalidFunctionStart(Seq<char>, usize, usize),
    MissingPushValue(usize, usize),
    InvalidPushValue(Seq<char>, usize, usize),
    MissingEmitQuotes(usize, usize),
    InvalidEmitEventFormat(usize, usize),
    MissingVariable(Seq<char>, usize, usize),
    MissingFunctionName(usize, usize),
    MissingAssertDepth(usize, usize),
    InvalidAssertDepth(Seq<char>, usize, usize),
    InsufficientAssertDepth(usize, usize),
    InvalidCaseValue(Seq<char>, usize, usize),
    MissingMatchValue(usize, usize),
    InvalidLoopFormat(Seq<char>, usize, usize),
    InvalidLoopCount(Seq<char>, usize, usize),
    UnexpectedEOF(usize),
    InvalidIndentation(usize),
    MissingParameter(Seq<char>, usize, usize),
    InvalidParameterValue(Seq<char>, usize, usize),
    SyntaxError(Seq<char>, SourcePosition),
}

pub open spec fn err_model(e: CompilerError) -> ErrorModel {
    match e {
        CompilerError::UnknownCommand(s, a, b) => ErrorModel::UnknownCommand(s@, a, b),
        CompilerError::UnknownBlockType(s, a, b) => ErrorModel::UnknownBlockType(s@, a, b),
        CompilerError::InvalidFunctionDefinition(s, a, b) => ErrorModel::InvalidFunctionDefinition(
            s@,
            a,
            b,
        ),
        CompilerError::InvalidFunctionFormat(s, a, b) => ErrorModel::InvalidFunctionFormat(s@, a, b),
        CompilerError::InvalidFunctionStart(s, a, b) => ErrorModel::InvalidFunctionStart(s@, a, b),
        CompilerError::MissingPushValue(a, b) => ErrorModel::MissingPushValue(a, b),
        CompilerError::InvalidPushValue(s, a, b) => ErrorModel::InvalidPushValue(s@, a, b),
        CompilerError::MissingEmitQuotes(a, b) => ErrorModel::MissingEmitQuotes(a, b),
        CompilerError::InvalidEmitEventFormat(a, b) => ErrorModel::InvalidEmitEventFormat(a, b),
        CompilerError::MissingVariable(s, a, b) => ErrorModel::MissingVariable(s@, a, b),
        CompilerError::MissingFunctionName(a, b) => ErrorModel::MissingFunctionName(a, b),
        CompilerError::MissingAssertDepth(a, b) => ErrorModel::MissingAssertDepth(a, b),
        CompilerError::InvalidAssertDepth(s, a, b) => ErrorModel::InvalidAssertDepth(s@, a, b),
        CompilerError::InsufficientAssertDepth(a, b) => ErrorModel::InsufficientAssertDepth(a, b),
        CompilerError::InvalidCaseValue(s, a, b) => ErrorModel::InvalidCaseValue(s@, a, b),
        CompilerError::MissingMatchValue(a, b) => ErrorModel::MissingMatchValue(a, b),
        CompilerError::InvalidLoopFormat(s, a, b) => ErrorModel::InvalidLoopFormat(s@, a, b),
        CompilerError::InvalidLoopCount(s, a, b) => ErrorModel::InvalidLoopCount(s@, a, b),
        CompilerError::UnexpectedEOF(a) => ErrorModel::UnexpectedEOF(a),
        CompilerError::InvalidIndentation(a) => ErrorModel::InvalidIndentation(a),
        CompilerError::MissingParameter(s, a, b) => ErrorModel::MissingParameter(s@, a, b),
        CompilerError::InvalidParameterValue(s, a, b) => ErrorModel::InvalidParameterValue(s@, a, b),
        CompilerError::SyntaxError(s, p) => ErrorModel::SyntaxError(s@, p),
    }
}

/// A message followed by the place it refers to: ` at line L, column C`.
pub open spec fn at_place(head: Seq<char>, line: usize, column: usize) -> Seq<char> {
    head + " at line "@ + dec_str(line as nat) + ", column "@ + dec_str(column as nat)
}

/// The text of a compiler error.
pub open spec fn error_text(e: ErrorModel) -> Seq<char> {
    match e {
        ErrorModel::UnknownCommand(s, l, c) => at_place("Unknown command: "@ + s, l, c),
        ErrorModel::UnknownBlockType(s, l, c) => at_place("Unknown block type: "@ + s, l, c),
        ErrorModel::InvalidFunctionDefinition(s, l, c) => at_place("Invalid function definition: "@ + s, l, c),
        ErrorModel::InvalidFunctionFormat(s, l, c) => at_place("Invalid function definition format: "@ + s, l, c),
        ErrorModel::InvalidFunctionStart(s, l, c) => at_place(
            "Function definition must start with 'def': "@ + s,
            l,
            c,
        ),
        ErrorModel::MissingPushValue(l, c) => at_place("Missing number for push"@, l, c),
        ErrorModel::InvalidPushValue(s, l, c) => at_place("Invalid number for push: "@ + s, l, c),
        ErrorModel::MissingEmitQuotes(l, c) => at_place("Missing quotes for emit command"@, l, c),
        ErrorModel::InvalidEmitEventFormat(l, c) => at_place("Invalid format for emitevent"@, l, c)
            + ", expected: emitevent \"category\" \"message\""@,
        ErrorModel::MissingVariable(s, l, c) => at_place("Missing variable for "@ + s, l, c),
        ErrorModel::MissingFunctionName(l, c) => at_place("Missing function name for call"@, l, c),
        ErrorModel::MissingAssertDepth(l, c) => at_place("Missing depth for assertequalstack"@, l, c),
        ErrorModel::InvalidAssertDepth(s, l, c) => at_place("Invalid depth for assertequalstack: "@ + s, l, c),
        ErrorModel::InsufficientAssertDepth(l, c) => at_place(
            "Depth for assertequalstack must be at least 2"@,
            l,
            c,
        ),
        ErrorModel::InvalidCaseValue(s, l, c) => at_place("Invalid case value: "@ + s, l, c),
        ErrorModel::MissingMatchValue(l, c) => at_place("Match statement must have a value block"@, l, c),
        ErrorModel::InvalidLoopFormat(s, l, c) => at_place("Invalid loop format: "@ + s, l, c),
        ErrorModel::InvalidLoopCount(s, l, c) => at_place("Invalid loop count: "@ + s, l, c),
        ErrorModel::UnexpectedEOF(l) => "Unexpected end of file while parsing block at line "@ + dec_str(l as nat),
        ErrorModel::InvalidIndentation(l) => "Invalid indentation level at line "@ + dec_str(l as nat),
        ErrorModel::MissingParameter(s, l, c) => at_place("Missing parameter: "@ + s, l, c),
        ErrorModel::InvalidParameterValue(s, l, c) => at_place("Invalid parameter value: "@ + s, l, c),
        ErrorModel::SyntaxError(s, p) => at_place("Syntax error: "@ + s, p.line, p.column),
    }
}

/// `head` followed by ` at line L, column C`.
fn place_text(head: &str, detail: Option<&String>, line: usize, column: usize) -> (r: String)
    ensures
        r@ == at_place(
            head@ + match detail {
                Some(d) => d@,
                None => Seq::<char>::empty(),
            },
            line,
            column,
        ),
{
    let mut r = String::from_str(head);
    match detail {
        Some(d) => r.append(d.as_str()),
        None => {},
    }
    r.append(" at line ");
    let l = decimal_string(line);
    r.append(l.as_str());
    r.append(", column ");
    let c = decimal_string(column);
    r.append(c.as_str());
    r
}

impl CompilerError {
    /// The text of the error, as its `Display` writes it.
    pub fn to_string(&self) -> (s: String)
        ensures
            s@ == error_text(err_model(*self)),
    {
        match self {
            CompilerError::UnknownCommand(s, l, c) => place_text("Unknown command: ", Some(s), *l, *c),
            CompilerError::UnknownBlockType(s, l, c) => place_text("Unknown block type: ", Some(s), *l, *c),
            CompilerError::InvalidFunctionDefinition(s, l, c) => place_text(
                "Invalid function definition: ",
                Some(s),
                *l,
                *c,
            ),
            CompilerError::InvalidFunctionFormat(s, l, c) => place_text(
                "Invalid function definition format: ",
                Some(s),
                *l,
                *c,
            ),
            CompilerError::InvalidFunctionStart(s, l, c) => place_text(
                "Function definition must start with 'def': ",
                Some(s),
                *l,
                *c,
            ),
            CompilerError::MissingPushValue(l, c) => place_text("Missing number for push", None, *l, *c),
            CompilerError::InvalidPushValue(s, l, c) => place_text("Invalid number for push: ", Some(s), *l, *c),
            CompilerError::MissingEmitQuotes(l, c) => place_text("Missing quotes for emit command", None, *l, *c),
            CompilerError::InvalidEmitEventFormat(l, c) => {
                let mut r = place_text("Invalid format for emitevent", None, *l, *c);
                r.append(", expected: emitevent \"category\" \"message\"");
                r
            },
            CompilerError::MissingVariable(s, l, c) => place_text("Missing variable for ", Some(s), *l, *c),
            CompilerError::MissingFunctionName(l, c) => place_text("Missing function name for call", None, *l, *c),
            CompilerError::MissingAssertDepth(l, c) => place_text(
                "Missing depth for assertequalstack",
                None,
                *l,
                *c,
            ),
            CompilerError::InvalidAssertDepth(s, l, c) => place_text(
                "Invalid depth for assertequalstack: ",
                Some(s),
                *l,
                *c,
            ),
            CompilerError::InsufficientAssertDepth(l, c) => place_text(
                "Depth for assertequalstack must be at least 2",
                None,
                *l,
                *c,
            ),
            CompilerError::InvalidCaseValue(s, l, c) => place_text("Invalid case value: ", Some(s), *l, *c),
            CompilerError::MissingMatchValue(l, c) => place_text(
                "Match statement must have a value block",
                None,
                *l,
                *c,
            ),
            CompilerError::InvalidLoopFormat(s, l, c) => place_text("Invalid loop format: ", Some(s), *l, *c),
            CompilerError::InvalidLoopCount(s, l, c) => place_text("Invalid loop count: ", Some(s), *l, *c),
            CompilerError::UnexpectedEOF(l) => {
                let mut r = String::from_str("Unexpected end of file while parsing block at line ");
                let d = decimal_string(*l);
                r.append(d.as_str());
                r
            },
            CompilerError::InvalidIndentation(l) => {
                let mut r = String::from_str("Invalid indentation level at line ");
                let d = decimal_string(*l);
                r.append(d.as_str());
                r
            },
            CompilerError::MissingParameter(s, l, c) => place_text("Missing parameter: ", Some(s), *l, *c),
            CompilerError::InvalidParameterValue(s, l, c) => place_text(
                "Invalid parameter value: ",
                Some(s),
                *l,
                *c,
            ),
            CompilerError::SyntaxError(s, p) => place_text("Syntax error: ", Some(s), p.line, p.column),
        }
    }
}

/// What [`parse_dsl`] computes for the source text `src`.
pub open spec fn program_spec(src: Seq<char>) -> Outcome<Seq<OpModel>> {
    sp_program(lines_of(src), 0, seq![])
}

/// How an executable program result stands to what the grammar says.
pub open spec fn program_result(r: Result<Vec<Op>, CompilerError>, o: Outcome<Seq<OpModel>>) -> bool {
    match r {
        Ok(ops) => o == Outcome::Done(ops_model(ops@)),
        Err(e) => o == Outcome::<Seq<OpModel>>::Fail(err_model(e)),
    }
}

/// Parses DSL source into the operations of a program.  Blank lines are
/// skipped; a line that ends with `:` opens a block (`if:`, `while:`,
/// `def name(..):`, `match:`, `loop N:`), which runs until the next line
/// indented no deeper than its header; parsing goes on at that line.
pub fn parse_dsl(source: &str) -> (r: Result<Vec<Op>, CompilerError>)
    requires
        !(program_spec(source@) is Panic),
    ensures
        program_result(r, program_spec(source@)),
        r matches Ok(ops) ==> all_nop_free(ops_model(ops@)),
{
    proof {
        crate::compiler::no_nops::lemma_parsed_program_has_no_nops(lines_of(source@));
    }
    let line_vec = split_lines(source);
    let lines = line_vec.as_slice();
    let ghost ls = strs_view(lines@);
    proof {
        lemma_strs_view(lines@);
        lemma_ops_model_empty();
    }
    assert(ls == lines_of(source@));
    let mut current_line: usize = 0;
    let mut ops: Vec<Op> = Vec::new();
    while current_line < lines.len()
        invariant
            ls == strs_view(lines@),
            ls == lines_of(source@),
            ls.len() == lines@.len(),
            current_line <= lines@.len() + 1,
            sp_program(ls, 0, seq![]) == sp_program(ls, current_line as int, ops_model(ops@)),
            !(sp_program(ls, 0, seq![]) is Panic),
        decreases lines@.len() + 1 - current_line,
    {
        let ghost i = current_line as int;
        let line = lines[current_line].as_str();
        assert(ls[i] == line@);
        let cs = chars_of(line);
        let s = cs.as_slice();
        proof {
            lemma_trim_bounds(s@);
        }
        let (a, b) = trim_bounds(s);
        if a == b {
            current_line = current_line + 1;
            continue;
        }
        let indent = skip_ws(s, 0);
        let pos = match pos_at(current_line, 1, indent) {
            Some(p) => p,
            None => {
                return Err(CompilerError::UnexpectedEOF(0));
            },
        };
        if range_finishes(s, a, b, ":") {
            match crate::compiler::line_parser::parse_statement_block(
                lines,
                &mut current_line,
                pos,
                s,
                a,
                b,
            ) {
                Ok(op) => {
                    push_unless_nop(&mut ops, op);
                },
                Err(e) => {
                    return Err(e);
                },
            }
        } else {
            match parse_line(line, pos) {
                Ok(op) => {
                    push_unless_nop(&mut ops, op);
                    current_line = current_line + 1;
                },
                Err(e) => {
                    return Err(e);
                },
            }
        }
    }
    Ok(ops)
}

/// The source that [`parse_dsl_with_stdlib`] parses: the standard library,
/// a blank line, then `src`.
pub open spec fn with_stdlib(src: Seq<char>) -> Seq<char> {
    STDLIB_SOURCE@ + "\n\n"@ + src
}

/// Parses DSL source with the standard library functions placed before it.
pub fn parse_dsl_with_stdlib(source: &str) -> (r: Result<Vec<Op>, CompilerError>)
    requires
        !(program_spec(with_stdlib(source@)) is Panic),
    ensures
        program_result(r, program_spec(with_stdlib(source@))),
        r matches Ok(ops) ==> all_nop_free(ops_model(ops@)),
{
    let mut combined = get_stdlib_code();
    combined.append("\n\n");
    combined.append(source);
    parse_dsl(combined.as_str())
}

/// Parsing with the standard library is parsing the standard library's
/// text, a blank line and the source: two results that each stand to their
/// grammar outcome as [`program_result`] says (as [`parse_dsl_with_stdlib`]
/// and [`parse_dsl`] of the joined text give) are the same program or the
/// same error.
pub proof fn lemma_stdlib_parse_is_joined_parse(
    src: Seq<char>,
    with_lib: Result<Vec<Op>, CompilerError>,
    joined: Result<Vec<Op>, CompilerError>,
)
    requires
        program_result(with_lib, program_spec(with_stdlib(src))),
        program_result(joined, program_spec(STDLIB_SOURCE@ + "\n\n"@ + src)),
    ensures
        with_lib is Ok <==> joined is Ok,
        with_lib matches Ok(a) ==> joined matches Ok(b) && ops_model(a@) == ops_model(b@),
        with_lib matches Err(e) ==> joined matches Err(f) && err_model(e) == err_model(f),
{
}

} // verus!
