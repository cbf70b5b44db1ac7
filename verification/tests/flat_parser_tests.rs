use icn_covm::compiler::flat::{parse_dsl, parse_function_signature, parse_line};
use icn_covm::Op;

#[test]
fn flat_push_and_emit() {
    let source = r#"
            push 42
            emit "hello world"
        "#;
    let ops = parse_dsl(source).unwrap();
    assert_eq!(ops, vec![Op::Push("42".to_string()), Op::Emit("hello world".to_string())]);
    match &ops[0] {
        Op::Push(text) => assert_eq!(text.parse::<f64>().unwrap(), 42.0),
        _ => panic!("Expected push"),
    }
}

#[test]
fn flat_function_definition() {
    let source = r#"
            def add(x, y):
                load x
                load y
                add
                return

            push 1
            push 2
            call add
        "#;
    let ops = parse_dsl(source).unwrap();
    match &ops[0] {
        Op::Def { name, params, body } => {
            assert_eq!(name, "add");
            assert_eq!(params, &vec!["x", "y"]);
            assert_eq!(
                body,
                &vec![Op::Load("x".into()), Op::Load("y".into()), Op::Add, Op::Return]
            );
        }
        _ => panic!("Expected function definition"),
    }
    assert_eq!(ops.len(), 4);
    assert_eq!(ops[3], Op::Call("add".to_string()));
}

#[test]
fn flat_if_else_block_closes_at_next_instruction() {
    let ops = parse_dsl("if:\n    push 1\nelse:\n    push 0\npush 3").unwrap();
    assert_eq!(
        ops,
        vec![
            Op::If {
                condition: vec![],
                then: vec![Op::Push("1".to_string())],
                else_: Some(vec![Op::Push("0".to_string())]),
            },
            Op::Push("3".to_string()),
        ]
    );
}

#[test]
fn flat_if_block_open_at_end_is_closed() {
    let ops = parse_dsl("if:\n    push 1").unwrap();
    assert_eq!(
        ops,
        vec![Op::If { condition: vec![], then: vec![Op::Push("1".to_string())], else_: None }]
    );
}

#[test]
fn flat_errors() {
    assert_eq!(parse_dsl("foobar"), Err("Unknown instruction: foobar".to_string()));
    assert_eq!(parse_dsl("emit hello"), Err("emit expects a quoted string".to_string()));
    assert_eq!(parse_dsl("else:"), Err("Unexpected else block".to_string()));
    assert_eq!(parse_dsl("push 1\n    push 2"), Err("Unexpected indented block".to_string()));
    assert_eq!(parse_dsl("push abc"), Err("Invalid number: invalid float literal".to_string()));
    assert_eq!(parse_dsl("push"), Err("Missing number for push".to_string()));
    assert_eq!(parse_dsl("def f"), Err("Invalid function definition: def f".to_string()));
    assert_eq!(parse_dsl("dumpstate"), Err("Unknown instruction: dumpstate".to_string()));
}

#[test]
fn flat_program_indented_as_a_whole() {
    assert_eq!(parse_dsl("    push 1"), Ok(vec![Op::Push("1".to_string())]));
    let ops = parse_dsl("  if:\n      push 1\n  else:\n      push 0\n  pop").unwrap();
    assert_eq!(
        ops,
        vec![
            Op::If {
                condition: vec![],
                then: vec![Op::Push("1".to_string())],
                else_: Some(vec![Op::Push("0".to_string())]),
            },
            Op::Pop,
        ]
    );
}

#[test]
fn flat_comments_and_blank_lines_are_skipped() {
    assert_eq!(parse_dsl("# note\n\npop   \n"), Ok(vec![Op::Pop]));
}

#[test]
fn flat_parse_line_cases() {
    assert_eq!(parse_line("# anything"), Ok(vec![]));
    assert_eq!(parse_line("else:"), Ok(vec![]));
    assert_eq!(parse_line("load"), Err("Missing variable for load".to_string()));
    assert_eq!(parse_line("store v"), Ok(vec![Op::Store("v".to_string())]));
    assert_eq!(parse_line("call"), Err("Missing function name for call".to_string()));
    assert_eq!(parse_line("   "), Err("Empty line".to_string()));
    assert_eq!(parse_line("push 2.5 extra"), Ok(vec![Op::Push("2.5".to_string())]));
}

#[test]
fn flat_signature_cases() {
    assert_eq!(
        parse_function_signature("def constant():"),
        Ok(("constant".to_string(), vec![]))
    );
    assert_eq!(
        parse_function_signature("def f( a , ,b ):"),
        Ok(("f".to_string(), vec!["a".to_string(), "b".to_string()]))
    );
}
