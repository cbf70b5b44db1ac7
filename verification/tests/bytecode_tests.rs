use icn_covm::bytecode::{BytecodeCompiler, BytecodeOp};
use icn_covm::{parse_dsl, Op};

fn compile(ops: Vec<Op>) -> Vec<BytecodeOp> {
    let mut c = BytecodeCompiler::new();
    c.compile(ops).instructions
}

fn push(s: &str) -> Op {
    Op::Push(s.to_string())
}

#[test]
fn test_simple_ops_map_one_to_one() {
    let code = compile(vec![push("1"), push("2"), Op::Add, Op::StoreP("k".to_string()), Op::Over]);
    assert_eq!(
        code,
        vec![
            BytecodeOp::Push("1".to_string()),
            BytecodeOp::Push("2".to_string()),
            BytecodeOp::Add,
            BytecodeOp::StoreStorage("k".to_string()),
            BytecodeOp::Return,
        ]
    );
}

#[test]
fn test_if_else_jumps() {
    let code = compile(vec![Op::If {
        condition: vec![push("1")],
        then: vec![push("2")],
        else_: Some(vec![push("3")]),
    }]);
    assert_eq!(
        code,
        vec![
            BytecodeOp::Push("1".to_string()),
            BytecodeOp::JumpIfZero(4),
            BytecodeOp::Push("2".to_string()),
            BytecodeOp::Jump(5),
            BytecodeOp::Push("3".to_string()),
        ]
    );
}

#[test]
fn test_if_without_else_and_while() {
    let code = compile(vec![Op::If { condition: vec![], then: vec![Op::Dup], else_: None }]);
    assert_eq!(code, vec![BytecodeOp::JumpIfZero(2), BytecodeOp::Dup]);

    let code = compile(vec![Op::While { condition: vec![Op::Dup], body: vec![Op::Pop] }]);
    assert_eq!(
        code,
        vec![BytecodeOp::Dup, BytecodeOp::JumpIfZero(4), BytecodeOp::Pop, BytecodeOp::Jump(0)]
    );
}

#[test]
fn test_small_loops_unroll() {
    let code = compile(vec![Op::Loop { count: 3, body: vec![Op::Dup] }]);
    assert_eq!(code, vec![BytecodeOp::Dup, BytecodeOp::Dup, BytecodeOp::Dup]);
}

#[test]
fn test_counted_loop_uses_a_counter_variable() {
    let code = compile(vec![Op::Loop { count: 7, body: vec![Op::Dup] }]);
    let var = "__loop_counter_1".to_string();
    assert_eq!(
        code,
        vec![
            BytecodeOp::Push("7".to_string()),
            BytecodeOp::Store(var.clone()),
            BytecodeOp::Load(var.clone()),
            BytecodeOp::Push("0.0".to_string()),
            BytecodeOp::Gt,
            BytecodeOp::JumpIfZero(12),
            BytecodeOp::Dup,
            BytecodeOp::Load(var.clone()),
            BytecodeOp::Push("1.0".to_string()),
            BytecodeOp::Sub,
            BytecodeOp::Store(var),
            BytecodeOp::Jump(2),
        ]
    );
}

#[test]
fn test_thousand_iteration_loop_keeps_counter_on_stack() {
    let code = compile(vec![Op::Loop { count: 1000, body: vec![Op::Dup] }]);
    assert_eq!(
        code,
        vec![
            BytecodeOp::Push("1000".to_string()),
            BytecodeOp::Dup,
            BytecodeOp::Push("0.0".to_string()),
            BytecodeOp::Gt,
            BytecodeOp::JumpIfZero(9),
            BytecodeOp::Dup,
            BytecodeOp::Push("1.0".to_string()),
            BytecodeOp::Sub,
            BytecodeOp::Jump(1),
            BytecodeOp::Pop,
        ]
    );
}

#[test]
fn test_match_compiles_to_comparisons() {
    let code = compile(vec![Op::Match {
        value: vec![push("2")],
        cases: vec![("1".to_string(), vec![Op::Dup]), ("2".to_string(), vec![Op::Pop])],
        default: Some(vec![Op::Swap]),
    }]);
    let var = "__match_value_1".to_string();
    assert_eq!(
        code,
        vec![
            BytecodeOp::Push("2".to_string()),
            BytecodeOp::Store(var.clone()),
            BytecodeOp::Load(var.clone()),
            BytecodeOp::Push("1".to_string()),
            BytecodeOp::Eq,
            BytecodeOp::JumpIfZero(8),
            BytecodeOp::Dup,
            BytecodeOp::Jump(15),
            BytecodeOp::Load(var.clone()),
            BytecodeOp::Push("2".to_string()),
            BytecodeOp::Eq,
            BytecodeOp::JumpIfZero(14),
            BytecodeOp::Pop,
            BytecodeOp::Jump(15),
            BytecodeOp::Swap,
        ]
    );
}

#[test]
fn test_functions_enter_the_table() {
    let ops = parse_dsl("def f(x):\n    load x\n    return\n\npush 1\ncall f\n").unwrap();
    let mut c = BytecodeCompiler::new();
    let program = c.compile(ops);
    assert_eq!(program.function_table.get("f"), Some(0));
    assert_eq!(program.function_table.get("g"), None);
    assert_eq!(
        program.instructions[0],
        BytecodeOp::FunctionEntry("f".to_string(), vec!["x".to_string()])
    );
    assert!(program.original_ops.is_some());
    for op in &program.instructions {
        match op {
            BytecodeOp::Jump(t) | BytecodeOp::JumpIfZero(t) => assert!(*t <= program.instructions.len()),
            _ => {}
        }
    }
}

#[test]
fn test_require_role_becomes_an_event() {
    let code = compile(vec![Op::RequireRole("admin".to_string()), Op::Macro("m".to_string())]);
    assert_eq!(
        code,
        vec![
            BytecodeOp::Nop,
            BytecodeOp::EmitEvent("governance".to_string(), "Require role: admin".to_string()),
            BytecodeOp::Nop,
        ]
    );
}

#[test]
fn functions_are_entered_where_their_entry_instruction_stands() {
    let ops = vec![
        push("1"),
        Op::Def { name: "f".to_string(), params: vec!["x".to_string()], body: vec![Op::Load("x".to_string())] },
        push("2"),
        Op::Def { name: "g".to_string(), params: vec![], body: vec![] },
    ];
    let mut c = BytecodeCompiler::new();
    let program = c.compile(ops);
    let f = program.function_table.get("f").unwrap();
    let g = program.function_table.get("g").unwrap();
    assert_eq!(f, 1);
    assert_eq!(program.instructions[f], BytecodeOp::FunctionEntry("f".to_string(), vec!["x".to_string()]));
    assert_eq!(g, 5);
    assert_eq!(program.instructions[g], BytecodeOp::FunctionEntry("g".to_string(), vec![]));
}
