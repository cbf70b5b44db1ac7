use icn_covm::compiler::no_panics::{parse_dsl_checked, parse_dsl_with_stdlib_checked};
use icn_covm::compiler::function_block::parse_function_block;
use icn_covm::compiler::if_block::parse_if_block;
use icn_covm::compiler::loop_block::parse_loop_block;
use icn_covm::compiler::match_block::parse_match_block;
use icn_covm::compiler::while_block::parse_while_block;
use icn_covm::compiler::{CompilerError, SourcePosition};
use icn_covm::{parse_dsl, Op};

fn lines(v: &[&str]) -> Vec<String> {
    v.iter().map(|s| s.to_string()).collect()
}

#[test]
fn test_simple_push_emit() {
    let source = r#"
            push 42
            emit "hello world"
        "#;
    let ops = parse_dsl(source).unwrap();
    assert_eq!(
        ops,
        vec![Op::Push("42".to_string()), Op::Emit("hello world".to_string())]
    );
    match &ops[0] {
        Op::Push(text) => assert_eq!(text.parse::<f64>().unwrap(), 42.0),
        _ => panic!("Expected push"),
    }
}

#[test]
fn test_function_definition() {
    let source = r#"
            def add(x, y):
                load x
                load y
                add
                return

            push 1
            push 2
            call add
        "#;
    let ops = parse_dsl(source).unwrap();
    match &ops[0] {
        Op::Def { name, params, body } => {
            assert_eq!(name, "add");
            assert_eq!(params, &vec!["x", "y"]);
            assert_eq!(
                body,
                &vec![Op::Load("x".into()), Op::Load("y".into()), Op::Add, Op::Return]
            );
        }
        _ => panic!("Expected function definition"),
    }
}

#[test]
fn test_invalid_instruction() {
    let result = parse_dsl("foobar");
    assert!(result.is_err());
}

#[test]
fn test_emit_without_quotes() {
    let result = parse_dsl("emit hello");
    assert!(result.is_err());
}

#[test]
fn test_function_block_parsing() {
    let source = lines(&["def add(x, y):", "    load x", "    load y", "    add", "    return"]);
    let mut current_line = 0;
    let pos = SourcePosition::new(1, 1);
    let op = parse_function_block(&source, &mut current_line, pos).unwrap();
    match op {
        Op::Def { name, params, body } => {
            assert_eq!(name, "add");
            assert_eq!(params, vec!["x".to_string(), "y".to_string()]);
            assert_eq!(body.len(), 4);
        }
        _ => panic!("Expected Def operation"),
    }
}

#[test]
fn test_function_without_params() {
    let source = lines(&["def constant():", "    push 42", "    return"]);
    let mut current_line = 0;
    let pos = SourcePosition::new(1, 1);
    let op = parse_function_block(&source, &mut current_line, pos).unwrap();
    match op {
        Op::Def { name, params, body } => {
            assert_eq!(name, "constant");
            assert_eq!(params.len(), 0);
            assert_eq!(body.len(), 2);
        }
        _ => panic!("Expected Def operation"),
    }
}

#[test]
fn test_invalid_function_signature() {
    let source = lines(&["def invalid", "    push 1"]);
    let mut current_line = 0;
    let pos = SourcePosition::new(1, 1);
    let result = parse_function_block(&source, &mut current_line, pos);
    assert!(result.is_err());
    match result.unwrap_err() {
        CompilerError::InvalidFunctionFormat(_, line, _) => {
            assert_eq!(line, 1);
        }
        err => panic!("Expected InvalidFunctionFormat error, got {:?}", err),
    }
}

#[test]
fn test_if_block_parsing() {
    let source = lines(&["if:", "    push 1", "    push 2", "    add", "else:", "    push 0"]);
    let mut current_line = 0;
    let pos = SourcePosition::new(1, 1);
    let op = parse_if_block(&source, &mut current_line, pos).unwrap();
    match op {
        Op::If { condition: _, then, else_ } => {
            assert_eq!(then.len(), 3);
            assert!(else_.is_some());
            let else_block = else_.unwrap();
            assert_eq!(else_block.len(), 1);
        }
        _ => panic!("Expected If operation"),
    }
}

#[test]
fn test_nested_if_blocks() {
    let source = lines(&[
        "if:",
        "    push 1",
        "    if:",
        "        push 2",
        "        add",
        "    else:",
        "        push 3",
        "else:",
        "    push 0",
    ]);
    let mut current_line = 0;
    let pos = SourcePosition::new(1, 1);
    let op = parse_if_block(&source, &mut current_line, pos).unwrap();
    match op {
        Op::If { condition: _, then, else_ } => {
            assert_eq!(then.len(), 2);
            assert!(else_.is_some());
            match &then[1] {
                Op::If { condition: _, then: nested_then, else_: nested_else } => {
                    assert_eq!(nested_then.len(), 2);
                    assert!(nested_else.is_some());
                }
                _ => panic!("Expected nested If operation"),
            }
        }
        _ => panic!("Expected If operation"),
    }
}

#[test]
fn test_loop_block_parsing() {
    let source = lines(&["loop 5:", "    push 1", "    push 2", "    add"]);
    let mut current_line = 0;
    let pos = SourcePosition::new(1, 1);
    let op = parse_loop_block(&source, &mut current_line, pos).unwrap();
    match op {
        Op::Loop { count, body } => {
            assert_eq!(count, 5);
            assert_eq!(body.len(), 3);
        }
        _ => panic!("Expected Loop operation"),
    }
}

#[test]
fn test_nested_loop_blocks() {
    let source = lines(&["loop 3:", "    push 1", "    loop 2:", "        push 2", "        add"]);
    let mut current_line = 0;
    let pos = SourcePosition::new(1, 1);
    let op = parse_loop_block(&source, &mut current_line, pos).unwrap();
    match op {
        Op::Loop { count, body } => {
            assert_eq!(count, 3);
            assert_eq!(body.len(), 2);
            match &body[1] {
                Op::Loop { count: nested_count, body: nested_body } => {
                    assert_eq!(*nested_count, 2);
                    assert_eq!(nested_body.len(), 2);
                }
                _ => panic!("Expected nested Loop operation"),
            }
        }
        _ => panic!("Expected Loop operation"),
    }
}

#[test]
fn test_invalid_loop_count() {
    let source = lines(&["loop abc:", "    push 1"]);
    let mut current_line = 0;
    let pos = SourcePosition::new(1, 1);
    let result = parse_loop_block(&source, &mut current_line, pos);
    assert!(result.is_err());
    match result.unwrap_err() {
        CompilerError::InvalidLoopCount(_, line, _) => {
            assert_eq!(line, 1);
        }
        err => panic!("Expected InvalidLoopCount error, got {:?}", err),
    }
}

#[test]
fn test_match_block_parsing() {
    let source = lines(&[
        "match:",
        "    value:",
        "        push 2",
        "    case 1:",
        "        push 10",
        "    case 2:",
        "        push 20",
        "    default:",
        "        push 0",
    ]);
    let mut current_line = 0;
    let pos = SourcePosition::new(1, 1);
    let op = parse_match_block(&source, &mut current_line, pos).unwrap();
    match op {
        Op::Match { value, cases, default } => {
            assert_eq!(value.len(), 1);
            assert_eq!(cases.len(), 2);
            assert!(default.is_some());
            assert_eq!(cases[0].0.parse::<f64>().unwrap(), 1.0);
            assert_eq!(cases[1].0.parse::<f64>().unwrap(), 2.0);
            assert_eq!(cases[0].1.len(), 1);
            assert_eq!(cases[1].1.len(), 1);
            let default_block = default.unwrap();
            assert_eq!(default_block.len(), 1);
        }
        _ => panic!("Expected Match operation"),
    }
}

#[test]
fn test_match_without_default() {
    let source = lines(&[
        "match:",
        "    value:",
        "        push 2",
        "    case 1:",
        "        push 10",
        "    case 2:",
        "        push 20",
    ]);
    let mut current_line = 0;
    let pos = SourcePosition::new(1, 1);
    let op = parse_match_block(&source, &mut current_line, pos).unwrap();
    match op {
        Op::Match { value, cases, default } => {
            assert_eq!(value.len(), 1);
            assert_eq!(cases.len(), 2);
            assert!(default.is_none());
        }
        _ => panic!("Expected Match operation"),
    }
}

#[test]
fn test_match_without_value_block() {
    let source = lines(&["match:", "    case 1:", "        push 10"]);
    let mut current_line = 0;
    let pos = SourcePosition::new(1, 1);
    let result = parse_match_block(&source, &mut current_line, pos);
    assert!(result.is_err());
    match result.unwrap_err() {
        CompilerError::SyntaxError(message, SourcePosition { line, column }) => {
            assert_eq!(message, "Expected value block in match statement");
            assert_eq!(line, 1);
            assert_eq!(column, 1);
        }
        err => panic!("Expected SyntaxError, got {:?}", err),
    }
}

#[test]
fn test_while_block_parsing() {
    let source = lines(&[
        "while:",
        "    condition:",
        "        push 1",
        "        push 0",
        "        gt",
        "    push 1",
        "    sub",
    ]);
    let mut current_line = 0;
    let pos = SourcePosition::new(1, 1);
    let op = parse_while_block(&source, &mut current_line, pos).unwrap();
    match op {
        Op::While { condition, body } => {
            assert_eq!(condition.len(), 3);
            assert_eq!(body.len(), 2);
        }
        _ => panic!("Expected While operation"),
    }
}

#[test]
fn test_nested_while_blocks() {
    let source = lines(&[
        "while:",
        "    push 1",
        "    while:",
        "        push 2",
        "        push 1",
        "        sub",
    ]);
    let mut current_line = 0;
    let pos = SourcePosition::new(1, 1);
    let op = parse_while_block(&source, &mut current_line, pos).unwrap();
    match op {
        Op::While { condition, body } => {
            assert_eq!(condition.len(), 1);
            assert_eq!(body.len(), 1);
            match &body[0] {
                Op::While { condition: nested_condition, body: nested_body } => {
                    assert_eq!(nested_condition.len(), 1);
                    assert_eq!(nested_body.len(), 2);
                }
                _ => panic!("Expected nested While operation"),
            }
        }
        _ => panic!("Expected While operation"),
    }
}

#[test]
fn compiler_error_texts() {
    assert_eq!(
        CompilerError::UnknownCommand("foo".to_string(), 3, 7).to_string(),
        "Unknown command: foo at line 3, column 7"
    );
    assert_eq!(
        CompilerError::MissingPushValue(1, 0).to_string(),
        "Missing number for push at line 1, column 0"
    );
    assert_eq!(
        CompilerError::InvalidEmitEventFormat(2, 5).to_string(),
        "Invalid format for emitevent at line 2, column 5, expected: emitevent \"category\" \"message\""
    );
    assert_eq!(
        CompilerError::UnexpectedEOF(12).to_string(),
        "Unexpected end of file while parsing block at line 12"
    );
    assert_eq!(
        CompilerError::SyntaxError("bad".to_string(), SourcePosition::new(4, 2)).to_string(),
        "Syntax error: bad at line 4, column 2"
    );
}

fn has_nop(ops: &[Op]) -> bool {
    ops.iter().any(|op| match op {
        Op::Nop => true,
        Op::Def { body, .. } | Op::Loop { body, .. } | Op::IfPassed(body) | Op::Else(body) => has_nop(body),
        Op::If { condition, then, else_ } => {
            has_nop(condition) || has_nop(then) || else_.as_ref().map_or(false, |e| has_nop(e))
        }
        Op::While { condition, body } => has_nop(condition) || has_nop(body),
        Op::Match { value, cases, default } => {
            has_nop(value)
                || cases.iter().any(|(_, c)| has_nop(c))
                || default.as_ref().map_or(false, |d| has_nop(d))
        }
        _ => false,
    })
}

#[test]
fn comments_and_blank_lines_leave_no_nop() {
    let source = "# top\n\nif:\n    # inside\n\n    push 1\nelse:\n    # nothing\n    push 2\n\nloop 2:\n    # c\n    pop\n";
    let ops = parse_dsl(source).unwrap();
    assert!(!has_nop(&ops));
    assert!(matches!(&ops[0], Op::If { then, .. } if then == &vec![Op::Push("1".to_string())]));
}

#[test]
fn parsing_goes_on_at_the_line_that_ends_a_block() {
    let ops = parse_dsl("# c\ndef f():\n    push 1\n\npush 2").unwrap();
    assert_eq!(
        ops,
        vec![
            Op::Def { name: "f".to_string(), params: vec![], body: vec![Op::Push("1".to_string())] },
            Op::Push("2".to_string()),
        ]
    );
    let ops = parse_dsl("if:\n    push 1\nelse:\n    push 0\npop").unwrap();
    assert_eq!(ops.len(), 2);
    assert_eq!(ops[1], Op::Pop);
}

#[test]
fn the_standard_library_comes_before_every_program() {
    let ops = icn_covm::compiler::parse_dsl_with_stdlib("push 1").unwrap();
    assert_eq!(ops.len(), 8);
    let names: Vec<String> = ops[..7]
        .iter()
        .map(|op| match op {
            Op::Def { name, .. } => name.clone(),
            _ => panic!("Expected function definition"),
        })
        .collect();
    assert_eq!(names, vec!["abs", "max", "min", "swap3", "dup2", "sum_n", "xor"]);
    match &ops[1] {
        Op::Def { params, .. } => assert_eq!(params, &vec!["a".to_string(), "b".to_string()]),
        _ => panic!("Expected function definition"),
    }
    match &ops[4] {
        Op::Def { params, .. } => assert!(params.is_empty()),
        _ => panic!("Expected function definition"),
    }
    assert_eq!(ops[7], Op::Push("1".to_string()));
}

#[test]
fn the_checked_parse_declines_what_would_panic() {
    assert_eq!(parse_dsl_checked("emit \"unclosed"), None);
    assert_eq!(
        parse_dsl_checked("push 1\nemit \"hi\""),
        Some(Ok(vec![Op::Push("1".to_string()), Op::Emit("hi".to_string())]))
    );
    assert!(matches!(parse_dsl_checked("foobar"), Some(Err(_))));
    assert_eq!(parse_dsl_with_stdlib_checked("push 1").map(|r| r.map(|ops| ops.len())), Some(Ok(8)));
}

#[test]
fn a_refused_header_leaves_the_line_where_it_was() {
    let source = lines(&["def invalid", "    push 1"]);
    let mut current_line = 0;
    let r = parse_function_block(&source, &mut current_line, SourcePosition::new(1, 1));
    assert_eq!(r, Err(CompilerError::InvalidFunctionFormat("def invalid".to_string(), 1, 1)));
    assert_eq!(current_line, 0);
    let source = lines(&["loop x:", "    push 1"]);
    let mut current_line = 0;
    assert!(parse_loop_block(&source, &mut current_line, SourcePosition::new(1, 1)).is_err());
    assert_eq!(current_line, 0);
}
