//! The bytecode layer: a flat instruction set for the stack machine, and the
//! compiler that turns nested operations into it, resolving control flow to
//! jumps and recording where each function starts.

use vstd::prelude::*;
use std::time::Duration;
use crate::kv::NameTable;
use crate::numeric::{dec_str, decimal_string};
use crate::ops::{cases_model, op_model, ops_model, strings_model, Op, OpModel};

verus! {

/// An instruction of the bytecode machine. Numeric operands are kept as the
/// literal text the machine reads as `f64`.
#[derive(Debug, PartialEq)]
pub enum BytecodeOp {
    Push(String),
    Store(String),
    Load(String),
    Add,
    Sub,
    Mul,
    Div,
    Emit(String),
    EmitEvent(String, String),
    Call(String),
    /// Jump to the position when the top of the stack is zero.
    JumpIfZero(usize),
    /// Jump to the position.
    Jump(usize),
    FunctionEntry(String, Vec<String>),
    Return,
    AssertTop(String),
    AssertMemory(String, String),
    AssertEqualStack(usize),
    RankedVote(Vec<String>, Vec<Vec<usize>>),
    LiquidDelegate(String, String),
    VoteThreshold(String),
    QuorumThreshold(String),
    Break,
    Continue,
    StoreP(String),
    LoadP(String),
    Dup,
    Pop,
    Swap,
    Eq,
    Gt,
    Lt,
    Negate,
    And,
    Or,
    Not,
    LoadParam(String),
    Assert,
    AssertEq,
    Print,
    StoreStorage(String),
    LoadStorage(String),
    LoadStorageVersion(String, u64),
    ListStorageVersions(String),
    DiffStorageVersions(String, u64, u64),
    Mod,
    RequireIdentity(String),
    VerifySignature,
    CreateResource(String),
    Mint { resource: String, account: String, amount: String, reason: Option<String> },
    Transfer { resource: String, from: String, to: String, amount: String, reason: Option<String> },
    Burn { resource: String, account: String, amount: String, reason: Option<String> },
    Balance { resource: String, account: String },
    GetIdentity(String),
    RequireValidSignature { voter: String, message: String, signature: String },
    IncrementReputation { identity_id: String, amount: Option<String>, reason: Option<String> },
    IfPassed(Vec<BytecodeOp>),
    Else(Vec<BytecodeOp>),
    Macro(String),
    Nop,
    RequireRole(String),
    MinDeliberation(Duration),
    ExpiresIn(Duration),
}

/// The mathematical value of an instruction, for the instructions the
/// compiler emits; every other instruction is `Unemitted`.
pub enum Instr {
    Push(Seq<char>),
    Store(Seq<char>),
    Load(Seq<char>),
    Add,
    Sub,
    Mul,
    Div,
    Emit(Seq<char>),
    EmitEvent(Seq<char>, Seq<char>),
    Call(Seq<char>),
    JumpIfZero(int),
    Jump(int),
    FunctionEntry(Seq<char>, Seq<Seq<char>>),
    Return,
    AssertTop(Seq<char>),
    AssertMemory(Seq<char>, Seq<char>),
    AssertEqualStack(usize),
    LiquidDelegate(Seq<char>, Seq<char>),
    VoteThreshold(Seq<char>),
    QuorumThreshold(Seq<char>),
    Break,
    Continue,
    Dup,
    Pop,
    Swap,
    Eq,
    Gt,
    Lt,
    Negate,
    And,
    Or,
    Not,
    StoreStorage(Seq<char>),
    LoadStorage(Seq<char>),
    LoadStorageVersion(Seq<char>, u64),
    ListStorageVersions(Seq<char>),
    DiffStorageVersions(Seq<char>, u64, u64),
    Mod,
    VerifySignature,
    CreateResource(Seq<char>),
    Nop,
    Unemitted,
}

pub open spec fn instr_model(b: BytecodeOp) -> Instr {
    match b {
        BytecodeOp::Push(s) => Instr::Push(s@),
        BytecodeOp::Store(s) => Instr::Store(s@),
        BytecodeOp::Load(s) => Instr::Load(s@),
        BytecodeOp::Add => Instr::Add,
        BytecodeOp::Sub => Instr::Sub,
        BytecodeOp::Mul => Instr::Mul,
        BytecodeOp::Div => Instr::Div,
        BytecodeOp::Emit(s) => Instr::Emit(s@),
        BytecodeOp::EmitEvent(c, m) => Instr::EmitEvent(c@, m@),
        BytecodeOp::Call(s) => Instr::Call(s@),
        BytecodeOp::JumpIfZero(t) => Instr::JumpIfZero(t as int),
        BytecodeOp::Jump(t) => Instr::Jump(t as int),
        BytecodeOp::FunctionEntry(n, p) => Instr::FunctionEntry(n@, strings_model(p@)),
        BytecodeOp::Return => Instr::Return,
        BytecodeOp::AssertTop(s) => Instr::AssertTop(s@),
        BytecodeOp::AssertMemory(k, e) => Instr::AssertMemory(k@, e@),
        BytecodeOp::AssertEqualStack(d) => Instr::AssertEqualStack(d),
        BytecodeOp::LiquidDelegate(f, t) => Instr::LiquidDelegate(f@, t@),
        BytecodeOp::VoteThreshold(s) => Instr::VoteThreshold(s@),
        BytecodeOp::QuorumThreshold(s) => Instr::QuorumThreshold(s@),
        BytecodeOp::Break => Instr::Break,
        BytecodeOp::Continue => Instr::Continue,
        BytecodeOp::Dup => Instr::Dup,
        BytecodeOp::Pop => Instr::Pop,
        BytecodeOp::Swap => Instr::Swap,
        BytecodeOp::Eq => Instr::Eq,
        BytecodeOp::Gt => Instr::Gt,
        BytecodeOp::Lt => Instr::Lt,
        BytecodeOp::Negate => Instr::Negate,
        BytecodeOp::And => Instr::And,
        BytecodeOp::Or => Instr::Or,
        BytecodeOp::Not => Instr::Not,
        BytecodeOp::StoreStorage(s) => Instr::StoreStorage(s@),
        BytecodeOp::LoadStorage(s) => Instr::LoadStorage(s@),
        BytecodeOp::LoadStorageVersion(s, v) => Instr::LoadStorageVersion(s@, v),
        BytecodeOp::ListStorageVersions(s) => Instr::ListStorageVersions(s@),
        BytecodeOp::DiffStorageVersions(s, a, b) => Instr::DiffStorageVersions(s@, a, b),
        BytecodeOp::Mod => Instr::Mod,
        BytecodeOp::VerifySignature => Instr::VerifySignature,
        BytecodeOp::CreateResource(s) => Instr::CreateResource(s@),
        BytecodeOp::Nop => Instr::Nop,
        _ => Instr::Unemitted,
    }
}

/// The model of a sequence of instructions.
pub open spec fn code_model(v: Seq<BytecodeOp>) -> Seq<Instr> {
    v.map_values(|b: BytecodeOp| instr_model(b))
}

/// A compiled program in the model: its instructions and where each
/// function starts.
pub struct CState {
    pub code: Seq<Instr>,
    pub table: Map<Seq<char>, usize>,
}

/// Points every jump at the positions `exits` to `target`, in order.
pub open spec fn patch_exits(code: Seq<Instr>, exits: Seq<int>, target: int) -> Seq<Instr>
    decreases exits.len(),
{
    if exits.len() == 0 {
        code
    } else {
        patch_exits(code, exits.drop_last(), target).update(exits.last(), Instr::Jump(target))
    }
}

/// The instructions an operation without nested operations compiles to.
pub open spec fn simple_code(op: OpModel) -> Seq<Instr> {
    match op {
        OpModel::Push(s) => seq![Instr::Push(s)],
        OpModel::Add => seq![Instr::Add],
        OpModel::Sub => seq![Instr::Sub],
        OpModel::Mul => seq![Instr::Mul],
        OpModel::Div => seq![Instr::Div],
        OpModel::Store(s) => seq![Instr::Store(s)],
        OpModel::Load(s) => seq![Instr::Load(s)],
        OpModel::Pop => seq![Instr::Pop],
        OpModel::Eq => seq![Instr::Eq],
        OpModel::Gt => seq![Instr::Gt],
        OpModel::Lt => seq![Instr::Lt],
        OpModel::Not => seq![Instr::Not],
        OpModel::And => seq![Instr::And],
        OpModel::Or => seq![Instr::Or],
        OpModel::Dup => seq![Instr::Dup],
        OpModel::Swap => seq![Instr::Swap],
        OpModel::Over => seq![Instr::Return],
        OpModel::Negate => seq![Instr::Negate],
        OpModel::Call(s) => seq![Instr::Call(s)],
        OpModel::Return => seq![Instr::Return],
        OpModel::Nop => seq![Instr::Nop],
        OpModel::Break => seq![Instr::Break],
        OpModel::Continue => seq![Instr::Continue],
        OpModel::Emit(s) => seq![Instr::Emit(s)],
        OpModel::EmitEvent { category, message } => seq![Instr::EmitEvent(category, message)],
        OpModel::DumpStack => seq![Instr::Return],
        OpModel::DumpMemory => seq![Instr::Return],
        OpModel::DumpState => seq![Instr::Return],
        OpModel::AssertTop(s) => seq![Instr::AssertTop(s)],
        OpModel::AssertMemory { key, expected } => seq![Instr::AssertMemory(key, expected)],
        OpModel::AssertEqualStack { depth } => seq![Instr::AssertEqualStack(depth)],
        OpModel::Mod => seq![Instr::Mod],
        OpModel::RankedVote { .. } => seq![Instr::Return],
        OpModel::StoreP(s) => seq![Instr::StoreStorage(s)],
        OpModel::LoadP(s) => seq![Instr::LoadStorage(s)],
        OpModel::LoadVersionP { key, version } => seq![Instr::LoadStorageVersion(key, version)],
        OpModel::ListVersionsP(s) => seq![Instr::ListStorageVersions(s)],
        OpModel::LiquidDelegate { from, to } => seq![Instr::LiquidDelegate(from, to)],
        OpModel::VoteThreshold(s) => seq![Instr::VoteThreshold(s)],
        OpModel::QuorumThreshold(s) => seq![Instr::QuorumThreshold(s)],
        OpModel::DiffVersionsP { key, v1, v2 } => seq![Instr::DiffStorageVersions(key, v1, v2)],
        OpModel::CreateResource(s) => seq![Instr::CreateResource(s)],
        OpModel::VerifySignature => seq![Instr::VerifySignature],
        OpModel::Macro(_) => seq![Instr::Nop],
        OpModel::RequireRole(r) => seq![Instr::Nop, Instr::EmitEvent("governance"@, "Require role: "@ + r)],
        _ => seq![],
    }
}

/// The literal text of the numbers the compiler writes itself.
pub open spec fn zero_text() -> Seq<char> {
    seq!['0', '.', '0']
}

pub open spec fn one_text() -> Seq<char> {
    seq!['1', '.', '0']
}

/// The name of the variable that counts a loop, stored at `pos`.
pub open spec fn loop_counter_name(pos: nat) -> Seq<char> {
    "__loop_counter_"@ + dec_str(pos)
}

/// The name of the variable that holds a match's value, stored at `pos`.
pub open spec fn match_value_name(pos: nat) -> Seq<char> {
    "__match_value_"@ + dec_str(pos)
}

/// The instructions after compiling `ops` behind `code`, with the function
/// table `t`.
pub open spec fn c_ops(code: Seq<Instr>, t: Map<Seq<char>, usize>, ops: Seq<OpModel>) -> Seq<Instr>
    decreases ops, 0nat,
{
    if ops.len() == 0 {
        code
    } else {
        c_op(c_ops(code, t, ops.drop_last()), t, ops[ops.len() - 1])
    }
}

/// The instructions after compiling the body of a loop `n` times over.
pub open spec fn c_repeat(code: Seq<Instr>, t: Map<Seq<char>, usize>, body: Seq<OpModel>, n: nat) -> Seq<Instr>
    decreases body, n,
{
    if n == 0 {
        code
    } else {
        c_ops(c_repeat(code, t, body, (n - 1) as nat), t, body)
    }
}

/// The instructions after the cases of a match on the variable `var`, and
/// the positions of the jumps that leave each case.
pub open spec fn c_cases(
    code: Seq<Instr>,
    t: Map<Seq<char>, usize>,
    var: Seq<char>,
    cases: Seq<(Seq<char>, Seq<OpModel>)>,
) -> (Seq<Instr>, Seq<int>)
    decreases cases, 0nat,
{
    if cases.len() == 0 {
        (code, seq![])
    } else {
        let (c1, exits) = c_cases(code, t, var, cases.drop_last());
        let case = cases[cases.len() - 1];
        let c2 = c1.push(Instr::Load(var)).push(Instr::Push(case.0)).push(Instr::Eq);
        let j = c2.len() as int;
        let c3 = c_ops(c2.push(Instr::JumpIfZero(0)), t, case.1);
        let e = c3.len() as int;
        let c4 = c3.push(Instr::Jump(0));
        (c4.update(j, Instr::JumpIfZero(c4.len() as int)), exits.push(e))
    }
}

/// The instructions after compiling one operation behind `code`.
pub open spec fn c_op(code: Seq<Instr>, t: Map<Seq<char>, usize>, op: OpModel) -> Seq<Instr>
    decreases op, 0nat,
{
    match op {
        OpModel::If { condition, then, else_ } => {
            let c1 = c_ops(code, t, condition);
            let j = c1.len() as int;
            let c2 = c_ops(c1.push(Instr::JumpIfZero(0)), t, then);
            match else_ {
                Some(e) => {
                    let jp = c2.len() as int;
                    let c3 = c2.push(Instr::Jump(0));
                    let c4 = c3.update(j, Instr::JumpIfZero(c3.len() as int));
                    let c5 = c_ops(c4, t, e);
                    c5.update(jp, Instr::Jump(c5.len() as int))
                },
                None => c2.update(j, Instr::JumpIfZero(c2.len() as int)),
            }
        },
        OpModel::While { condition, body } => {
            let start = code.len() as int;
            let c1 = c_ops(code, t, condition);
            let j = c1.len() as int;
            let c2 = c_ops(c1.push(Instr::JumpIfZero(0)), t, body);
            let c3 = c2.push(Instr::Jump(start));
            c3.update(j, Instr::JumpIfZero(c3.len() as int))
        },
        OpModel::Loop { count, body } => {
            if count <= 5 {
                c_repeat(code, t, body, count as nat)
            } else if count == 1000 && body.len() <= 5 {
                let c1 = code.push(Instr::Push(dec_str(count as nat)));
                let start = c1.len() as int;
                let c2 = c1.push(Instr::Dup).push(Instr::Push(zero_text())).push(Instr::Gt);
                let j = c2.len() as int;
                let c3 = c_ops(c2.push(Instr::JumpIfZero(0)), t, body);
                let c4 = c3.push(Instr::Push(one_text())).push(Instr::Sub).push(Instr::Jump(start));
                c4.update(j, Instr::JumpIfZero(c4.len() as int)).push(Instr::Pop)
            } else {
                let c1 = code.push(Instr::Push(dec_str(count as nat)));
                let var = loop_counter_name(c1.len());
                let c2 = c1.push(Instr::Store(var));
                let start = c2.len() as int;
                let c3 = c2.push(Instr::Load(var)).push(Instr::Push(zero_text())).push(Instr::Gt);
                let j = c3.len() as int;
                let c4 = c_ops(c3.push(Instr::JumpIfZero(0)), t, body);
                let c5 = c4.push(Instr::Load(var)).push(Instr::Push(one_text())).push(Instr::Sub).push(
                    Instr::Store(var),
                ).push(Instr::Jump(start));
                c5.update(j, Instr::JumpIfZero(c5.len() as int))
            }
        },
        OpModel::Def { name, params, body } => {
            if t.dom().contains(name) {
                c_ops(code.push(Instr::FunctionEntry(name, params)), t, body).push(Instr::Return)
            } else {
                code
            }
        },
        OpModel::Match { value, cases, default } => {
            let c1 = c_ops(code, t, value);
            let var = match_value_name(c1.len());
            let c2 = c1.push(Instr::Store(var));
            let (c3, exits) = c_cases(c2, t, var, cases);
            let c4 = match default {
                Some(d) => c_ops(c3, t, d),
                None => c3,
            };
            patch_exits(c4, exits, c4.len() as int)
        },
        OpModel::IfPassed(b) => c_ops(code, t, b),
        OpModel::Else(b) => c_ops(code, t, b),
        _ => code + simple_code(op),
    }
}

/// The first pass over a program: each top-level function, in order, is
/// entered in the table at the current position and compiled there.
pub open spec fn c_pre(st: CState, ops: Seq<OpModel>) -> CState
    decreases ops.len(),
{
    if ops.len() == 0 {
        st
    } else {
        let s = c_pre(st, ops.drop_last());
        match ops[ops.len() - 1] {
            OpModel::Def { name, params, body } => {
                let t = s.table.insert(name, s.code.len() as usize);
                CState {
                    code: c_ops(s.code.push(Instr::FunctionEntry(name, params)), t, body).push(Instr::Return),
                    table: t,
                }
            },
            _ => s,
        }
    }
}

/// Where each top-level function of `ops` is entered when `ops` is compiled
/// from the start with the table `t`: the position of its `FunctionEntry`
/// (for a name defined twice, the later definition).
pub open spec fn entry_table(t: Map<Seq<char>, usize>, ops: Seq<OpModel>) -> Map<Seq<char>, usize>
    decreases ops.len(),
{
    if ops.len() == 0 {
        Map::empty()
    } else {
        let prev = ops.drop_last();
        match ops[ops.len() - 1] {
            OpModel::Def { name, .. } => entry_table(t, prev).insert(name, c_ops(seq![], t, prev).len() as usize),
            _ => entry_table(t, prev),
        }
    }
}

/// The parameters of the last top-level definition of `name` in `ops`.
pub open spec fn last_def_params(ops: Seq<OpModel>, name: Seq<char>) -> Seq<Seq<char>>
    decreases ops.len(),
{
    if ops.len() == 0 {
        seq![]
    } else {
        match ops[ops.len() - 1] {
            OpModel::Def { name: n, params, .. } => if n == name {
                params
            } else {
                last_def_params(ops.drop_last(), name)
            },
            _ => last_def_params(ops.drop_last(), name),
        }
    }
}

/// The compiled program of a sequence of operations: a first pass finds
/// the top-level functions (its instructions are dropped); the operations
/// are then compiled with that table, and the function table maps each
/// top-level function to the position of its `FunctionEntry` there.
pub open spec fn compiled(ops: Seq<OpModel>) -> CState {
    let pre = c_pre(CState { code: seq![], table: Map::empty() }, ops);
    CState { code: c_ops(seq![], pre.table, ops), table: entry_table(pre.table, ops) }
}

/// Appends an instruction.
fn emit_op(code: &mut Vec<BytecodeOp>, b: BytecodeOp)
    ensures
        final(code)@.len() == old(code)@.len() + 1,
        code_model(final(code)@) == code_model(old(code)@).push(instr_model(b)),
{
    code.push(b);
    assert(code_model(final(code)@) =~= code_model(old(code)@).push(instr_model(b)));
}

/// Replaces the instruction at `pos` (the placeholder of a jump).
fn set_op(code: &mut Vec<BytecodeOp>, pos: usize, b: BytecodeOp)
    requires
        pos < old(code)@.len(),
    ensures
        final(code)@.len() == old(code)@.len(),
        code_model(final(code)@) == code_model(old(code)@).update(pos as int, instr_model(b)),
{
    code.set(pos, b);
    assert(code_model(final(code)@) =~= code_model(old(code)@).update(pos as int, instr_model(b)));
}

/// The single instruction an operation compiles to, if it compiles to one
/// by itself.
fn single_instr(op: &Op) -> (r: Option<BytecodeOp>)
    ensures
        r matches Some(b) ==> simple_code(op_model(*op)) == seq![instr_model(b)],
        r is None ==> (op_model(*op) is If || op_model(*op) is While || op_model(*op) is Loop
            || op_model(*op) is Def || op_model(*op) is Match || op_model(*op) is IfPassed
            || op_model(*op) is Else || op_model(*op) is RequireRole),
{
    match op {
        Op::Push(s) => Some(BytecodeOp::Push(s.clone())),
        Op::Add => Some(BytecodeOp::Add),
        Op::Sub => Some(BytecodeOp::Sub),
        Op::Mul => Some(BytecodeOp::Mul),
        Op::Div => Some(BytecodeOp::Div),
        Op::Store(s) => Some(BytecodeOp::Store(s.clone())),
        Op::Load(s) => Some(BytecodeOp::Load(s.clone())),
        Op::Pop => Some(BytecodeOp::Pop),
        Op::Eq => Some(BytecodeOp::Eq),
        Op::Gt => Some(BytecodeOp::Gt),
        Op::Lt => Some(BytecodeOp::Lt),
        Op::Not => Some(BytecodeOp::Not),
        Op::And => Some(BytecodeOp::And),
        Op::Or => Some(BytecodeOp::Or),
        Op::Dup => Some(BytecodeOp::Dup),
        Op::Swap => Some(BytecodeOp::Swap),
        Op::Over => Some(BytecodeOp::Return),
        Op::Negate => Some(BytecodeOp::Negate),
        Op::Call(s) => Some(BytecodeOp::Call(s.clone())),
        Op::Return => Some(BytecodeOp::Return),
        Op::Nop => Some(BytecodeOp::Nop),
        Op::Break => Some(BytecodeOp::Break),
        Op::Continue => Some(BytecodeOp::Continue),
        Op::Emit(s) => Some(BytecodeOp::Emit(s.clone())),
        Op::EmitEvent { category, message } => Some(BytecodeOp::EmitEvent(category.clone(), message.clone())),
        Op::DumpStack => Some(BytecodeOp::Return),
        Op::DumpMemory => Some(BytecodeOp::Return),
        Op::DumpState => Some(BytecodeOp::Return),
        Op::AssertTop(s) => Some(BytecodeOp::AssertTop(s.clone())),
        Op::AssertMemory { key, expected } => Some(BytecodeOp::AssertMemory(key.clone(), expected.clone())),
        Op::AssertEqualStack { depth } => Some(BytecodeOp::AssertEqualStack(*depth)),
        Op::Mod => Some(BytecodeOp::Mod),
        Op::RankedVote { .. } => Some(BytecodeOp::Return),
        Op::StoreP(s) => Some(BytecodeOp::StoreStorage(s.clone())),
        Op::LoadP(s) => Some(BytecodeOp::LoadStorage(s.clone())),
        Op::LoadVersionP { key, version } => Some(BytecodeOp::LoadStorageVersion(key.clone(), *version)),
        Op::ListVersionsP(s) => Some(BytecodeOp::ListStorageVersions(s.clone())),
        Op::LiquidDelegate { from, to } => Some(BytecodeOp::LiquidDelegate(from.clone(), to.clone())),
        Op::VoteThreshold(s) => Some(BytecodeOp::VoteThreshold(s.clone())),
        Op::QuorumThreshold(s) => Some(BytecodeOp::QuorumThreshold(s.clone())),
        Op::DiffVersionsP { key, v1, v2 } => Some(BytecodeOp::DiffStorageVersions(key.clone(), *v1, *v2)),
        Op::CreateResource(s) => Some(BytecodeOp::CreateResource(s.clone())),
        Op::VerifySignature => Some(BytecodeOp::VerifySignature),
        Op::Macro(_) => Some(BytecodeOp::Nop),
        _ => None,
    }
}

/// Compiles `ops` behind `code` with the function table `table`.
fn compile_ops(code: &mut Vec<BytecodeOp>, table: &NameTable, ops: &Vec<Op>)
    requires
        table.wf(),
    ensures
        code_model(final(code)@) == c_ops(code_model(old(code)@), table@, ops_model(ops@)),
        final(code)@.len() >= old(code)@.len(),
    decreases ops, 0nat,
{
    let ghost c0 = code_model(code@);
    let ghost m = ops_model(ops@);
    let mut i: usize = 0;
    while i < ops.len()
        invariant
            i <= ops@.len(),
            table.wf(),
            m == ops_model(ops@),
            code_model(code@) == c_ops(c0, table@, m.take(i as int)),
            code@.len() >= old(code)@.len(),
            c0 == code_model(old(code)@),
        decreases ops@.len() - i,
    {
        proof {
            assert(m.take(i + 1).drop_last() =~= m.take(i as int));
            assert(m.take(i + 1)[i as int] == op_model(ops@[i as int]));
        }
        compile_op(code, table, &ops[i]);
        i += 1;
    }
    assert(m.take(i as int) =~= m);
}

/// Compiles one operation behind `code` with the function table `table`.
fn compile_op(code: &mut Vec<BytecodeOp>, table: &NameTable, op: &Op)
    requires
        table.wf(),
    ensures
        code_model(final(code)@) == c_op(code_model(old(code)@), table@, op_model(*op)),
        final(code)@.len() >= old(code)@.len(),
    decreases op, 0nat,
{
    let ghost c0 = code_model(code@);
    if let Some(b) = single_instr(op) {
        emit_op(code, b);
        assert(c0 + seq![instr_model(b)] =~= c0.push(instr_model(b)));
        return;
    }
    match op {
        Op::RequireRole(role) => {
            emit_op(code, BytecodeOp::Nop);
            let mut text = String::from_str("Require role: ");
            text.append(role.as_str());
            emit_op(code, BytecodeOp::EmitEvent(String::from_str("governance"), text));
            assert(c0 + simple_code(op_model(*op)) =~= code_model(code@));
        },
        Op::IfPassed(b) => {
            compile_ops(code, table, b);
        },
        Op::Else(b) => {
            compile_ops(code, table, b);
        },
        Op::If { condition, then, else_ } => {
            compile_ops(code, table, condition);
            let j = code.len();
            emit_op(code, BytecodeOp::JumpIfZero(0));
            compile_ops(code, table, then);
            match else_ {
                Some(e) => {
                    let jp = code.len();
                    emit_op(code, BytecodeOp::Jump(0));
                    let else_pos = code.len();
                    set_op(code, j, BytecodeOp::JumpIfZero(else_pos));
                    compile_ops(code, table, e);
                    let after = code.len();
                    set_op(code, jp, BytecodeOp::Jump(after));
                },
                None => {
                    let after = code.len();
                    set_op(code, j, BytecodeOp::JumpIfZero(after));
                },
            }
        },
        Op::While { condition, body } => {
            let start = code.len();
            compile_ops(code, table, condition);
            let j = code.len();
            emit_op(code, BytecodeOp::JumpIfZero(0));
            compile_ops(code, table, body);
            emit_op(code, BytecodeOp::Jump(start));
            let after = code.len();
            set_op(code, j, BytecodeOp::JumpIfZero(after));
        },
        Op::Loop { count, body } => {
            let count = *count;
            if count <= 5 {
                let ghost bm = ops_model(body@);
                let mut k: usize = 0;
                while k < count
                    invariant
                        k <= count,
                        table.wf(),
                        bm == ops_model(body@),
                        code_model(code@) == c_repeat(c0, table@, bm, k as nat),
                        code@.len() >= old(code)@.len(),
                        *op matches Op::Loop { body: b, .. } && b == *body,
                    decreases count - k,
                {
                    compile_ops(code, table, body);
                    k += 1;
                }
            } else if count == 1000 && body.len() <= 5 {
                proof {
                    reveal_strlit("0.0");
                    reveal_strlit("1.0");
                    assert("0.0"@ =~= zero_text());
                    assert("1.0"@ =~= one_text());
                }
                let ghost t = table@;
                let ghost bm = ops_model(body@);
                emit_op(code, BytecodeOp::Push(decimal_string(count)));
                let ghost c1 = code_model(code@);
                let start = code.len();
                emit_op(code, BytecodeOp::Dup);
                emit_op(code, BytecodeOp::Push(String::from_str("0.0")));
                emit_op(code, BytecodeOp::Gt);
                let ghost c2 = code_model(code@);
                assert(c2 == c1.push(Instr::Dup).push(Instr::Push(zero_text())).push(Instr::Gt));
                let j = code.len();
                emit_op(code, BytecodeOp::JumpIfZero(0));
                compile_ops(code, table, body);
                let ghost c3 = code_model(code@);
                assert(c3 == c_ops(c2.push(Instr::JumpIfZero(0)), t, bm));
                emit_op(code, BytecodeOp::Push(String::from_str("1.0")));
                emit_op(code, BytecodeOp::Sub);
                emit_op(code, BytecodeOp::Jump(start));
                let ghost c4 = code_model(code@);
                assert(c4 == c3.push(Instr::Push(one_text())).push(Instr::Sub).push(Instr::Jump(start as int)));
                let after = code.len();
                set_op(code, j, BytecodeOp::JumpIfZero(after));
                emit_op(code, BytecodeOp::Pop);
            } else {
                proof {
                    reveal_strlit("0.0");
                    reveal_strlit("1.0");
                    assert("0.0"@ =~= zero_text());
                    assert("1.0"@ =~= one_text());
                }
                let ghost t = table@;
                let ghost bm = ops_model(body@);
                emit_op(code, BytecodeOp::Push(decimal_string(count)));
                let ghost c1 = code_model(code@);
                let mut var = String::from_str("__loop_counter_");
                let pos = decimal_string(code.len());
                var.append(pos.as_str());
                assert(var@ == loop_counter_name(c1.len()));
                emit_op(code, BytecodeOp::Store(var.clone()));
                let start = code.len();
                let ghost c2 = code_model(code@);
                emit_op(code, BytecodeOp::Load(var.clone()));
                emit_op(code, BytecodeOp::Push(String::from_str("0.0")));
                emit_op(code, BytecodeOp::Gt);
                let ghost c3 = code_model(code@);
                assert(c3 == c2.push(Instr::Load(var@)).push(Instr::Push(zero_text())).push(Instr::Gt));
                let j = code.len();
                emit_op(code, BytecodeOp::JumpIfZero(0));
                compile_ops(code, table, body);
                let ghost c4 = code_model(code@);
                assert(c4 == c_ops(c3.push(Instr::JumpIfZero(0)), t, bm));
                emit_op(code, BytecodeOp::Load(var.clone()));
                emit_op(code, BytecodeOp::Push(String::from_str("1.0")));
                emit_op(code, BytecodeOp::Sub);
                emit_op(code, BytecodeOp::Store(var));
                emit_op(code, BytecodeOp::Jump(start));
                let after = code.len();
                set_op(code, j, BytecodeOp::JumpIfZero(after));
            }
        },
        Op::Def { name, params, body } => {
            if table.contains_key(name.as_str()) {
                let ps = params.clone();
                proof {
                    assert(strings_model(ps@) =~= strings_model(params@)) by {
                        assert forall|k: int| 0 <= k < params@.len() implies ps@[k] == params@[k] by {
                            assert(vstd::pervasive::cloned::<String>(params@[k], ps@[k]));
                        }
                    }
                }
                emit_op(code, BytecodeOp::FunctionEntry(name.clone(), ps));
                compile_ops(code, table, body);
                emit_op(code, BytecodeOp::Return);
            }
            assert(code_model(code@) == c_op(c0, table@, op_model(*op)));
        },
        Op::Match { value, cases, default } => {
            compile_ops(code, table, value);
            let mut var = String::from_str("__match_value_");
            let pos = decimal_string(code.len());
            var.append(pos.as_str());
            emit_op(code, BytecodeOp::Store(var.clone()));
            let ghost c2 = code_model(code@);
            let ghost cm = cases_model(cases@);
            let mut exits: Vec<usize> = Vec::new();
            let mut i: usize = 0;
            while i < cases.len()
                invariant
                    i <= cases@.len(),
                    table.wf(),
                    cm == cases_model(cases@),
                    code_model(code@) == c_cases(c2, table@, var@, cm.take(i as int)).0,
                    exits@.map_values(|e: usize| e as int) == c_cases(c2, table@, var@, cm.take(i as int)).1,
                    forall|k: int| 0 <= k < exits@.len() ==> #[trigger] exits@[k] < code@.len(),
                    code@.len() >= old(code)@.len(),
                    *op matches Op::Match { cases: cs, .. } && cs == *cases,
                decreases cases@.len() - i,
            {
                proof {
                    assert(cm.take(i + 1).drop_last() =~= cm.take(i as int));
                    assert(cm.take(i + 1)[i as int] == (cases@[i as int].0@, ops_model(cases@[i as int].1@)));
                }
                let ghost before = exits@;
                emit_op(code, BytecodeOp::Load(var.clone()));
                emit_op(code, BytecodeOp::Push(cases[i].0.clone()));
                emit_op(code, BytecodeOp::Eq);
                let j = code.len();
                emit_op(code, BytecodeOp::JumpIfZero(0));
                compile_ops(code, table, &cases[i].1);
                let e = code.len();
                emit_op(code, BytecodeOp::Jump(0));
                exits.push(e);
                let after = code.len();
                set_op(code, j, BytecodeOp::JumpIfZero(after));
                proof {
                    assert(exits@.map_values(|e: usize| e as int) =~= before.map_values(|e: usize| e as int).push(e as int));
                }
                i += 1;
            }
            assert(cm.take(i as int) =~= cm);
            let ghost c3 = code_model(code@);
            match default {
                Some(d) => compile_ops(code, table, d),
                None => {},
            }
            let after = code.len();
            let ghost c4 = code_model(code@);
            let ghost ex = exits@.map_values(|e: usize| e as int);
            let mut k: usize = 0;
            while k < exits.len()
                invariant
                    k <= exits@.len(),
                    ex == exits@.map_values(|e: usize| e as int),
                    after == code@.len(),
                    forall|q: int| 0 <= q < exits@.len() ==> #[trigger] exits@[q] < code@.len(),
                    code_model(code@) == patch_exits(c4, ex.take(k as int), after as int),
                    code@.len() >= old(code)@.len(),
                decreases exits@.len() - k,
            {
                proof {
                    assert(ex.take(k + 1).drop_last() =~= ex.take(k as int));
                }
                set_op(code, exits[k], BytecodeOp::Jump(after));
                k += 1;
            }
            assert(ex.take(k as int) =~= ex);
            assert(code_model(code@) == c_op(c0, table@, op_model(*op)));
        },
        _ => {},
    }
}

/// The first pass: enters each top-level function of `ops` in `table` at
/// the position it takes when the functions are compiled one after the
/// other; the instructions of this pass are then dropped.
fn pre_process_functions(table: &mut NameTable, ops: &Vec<Op>)
    ensures
        final(table).wf(),
        final(table)@ == c_pre(CState { code: seq![], table: Map::empty() }, ops_model(ops@)).table,
{
    table.clear();
    let mut code: Vec<BytecodeOp> = Vec::new();
    let ghost m = ops_model(ops@);
    let ghost s0 = CState { code: seq![], table: Map::empty() };
    assert(code_model(code@) =~= Seq::<Instr>::empty());
    let mut i: usize = 0;
    while i < ops.len()
        invariant
            i <= ops@.len(),
            table.wf(),
            m == ops_model(ops@),
            s0 == (CState { code: seq![], table: Map::empty() }),
            (CState { code: code_model(code@), table: table@ }) == c_pre(s0, m.take(i as int)),
        decreases ops@.len() - i,
    {
        proof {
            assert(m.take(i + 1).drop_last() =~= m.take(i as int));
            assert(m.take(i + 1)[i as int] == op_model(ops@[i as int]));
        }
        match &ops[i] {
            Op::Def { name, params, body } => {
                let entry = code.len();
                table.insert(name.as_str(), entry);
                let ps = params.clone();
                proof {
                    assert(strings_model(ps@) =~= strings_model(params@)) by {
                        assert forall|k: int| 0 <= k < params@.len() implies ps@[k] == params@[k] by {
                            assert(vstd::pervasive::cloned::<String>(params@[k], ps@[k]));
                        }
                    }
                }
                emit_op(&mut code, BytecodeOp::FunctionEntry(name.clone(), ps));
                compile_ops(&mut code, table, body);
                emit_op(&mut code, BytecodeOp::Return);
            },
            _ => {},
        }
        i += 1;
    }
    assert(m.take(i as int) =~= m);
}

/// A compiled program: its instructions, where each function starts, and
/// the operations it was compiled from.
pub struct BytecodeProgram {
    pub instructions: Vec<BytecodeOp>,
    pub function_table: NameTable,
    pub original_ops: Option<Vec<Op>>,
}

impl BytecodeProgram {
    /// The instructions and the function table, as values.
    pub open spec fn model(&self) -> CState {
        CState { code: code_model(self.instructions@), table: self.function_table@ }
    }

    /// An empty program.
    pub fn new() -> (p: Self)
        ensures
            p.function_table.wf(),
            p.instructions@ == Seq::<BytecodeOp>::empty(),
            p.function_table@ == Map::<Seq<char>, usize>::empty(),
            p.original_ops is None,
    {
        BytecodeProgram { instructions: Vec::new(), function_table: NameTable::new(), original_ops: None }
    }

    /// The program, keeping the operations it was compiled from.
    pub fn with_original_ops(self, ops: Vec<Op>) -> (p: Self)
        ensures
            p.instructions == self.instructions,
            p.function_table == self.function_table,
            p.original_ops == Some(ops),
    {
        BytecodeProgram { original_ops: Some(ops), ..self }
    }
}

impl Default for BytecodeProgram {
    fn default() -> (p: Self)
        ensures
            p.function_table.wf(),
            p.instructions@ == Seq::<BytecodeOp>::empty(),
            p.function_table@ == Map::<Seq<char>, usize>::empty(),
            p.original_ops is None,
    {
        Self::new()
    }
}

/// The compiler from operations to bytecode.
pub struct BytecodeCompiler {
    program: BytecodeProgram,
}

impl BytecodeCompiler {
    /// The program the compiler holds.
    pub closed spec fn held(&self) -> BytecodeProgram {
        self.program
    }

    /// A compiler with an empty program.
    pub fn new() -> (c: Self)
        ensures
            c.held().instructions@ == Seq::<BytecodeOp>::empty(),
            c.held().function_table@ == Map::<Seq<char>, usize>::empty(),
            c.held().original_ops is None,
    {
        BytecodeCompiler { program: BytecodeProgram::new() }
    }

    /// Compiles a program: a first pass enters each top-level function in
    /// the function table at the position it takes when the functions are
    /// compiled one after the other; then the operations are compiled in
    /// order with that table. The program keeps the operations.
    pub fn compile(&mut self, ops: Vec<Op>) -> (p: BytecodeProgram)
        ensures
            p.model() == compiled(ops_model(ops@)),
            p.function_table.wf(),
            p.original_ops == Some(ops),
            forall|name: Seq<char>| #[trigger] p.function_table@.dom().contains(name) <==> defines(ops_model(ops@), name),
            forall|name: Seq<char>| #[trigger] p.function_table@.dom().contains(name) ==> {
                &&& p.function_table@[name] < p.instructions@.len()
                &&& instr_model(p.instructions@[p.function_table@[name] as int]) == Instr::FunctionEntry(
                    name,
                    last_def_params(ops_model(ops@), name),
                )
            },
    {
        self.program = BytecodeProgram::new();
        let mut table = NameTable::new();
        pre_process_functions(&mut table, &ops);
        let mut code: Vec<BytecodeOp> = Vec::new();
        let mut entries = NameTable::new();
        let ghost m = ops_model(ops@);
        assert(code_model(code@) =~= Seq::<Instr>::empty());
        assert(m.take(0) =~= Seq::<OpModel>::empty());
        let mut i: usize = 0;
        while i < ops.len()
            invariant
                i <= ops@.len(),
                table.wf(),
                entries.wf(),
                m == ops_model(ops@),
                code_model(code@) == c_ops(seq![], table@, m.take(i as int)),
                entries@ == entry_table(table@, m.take(i as int)),
            decreases ops@.len() - i,
        {
            proof {
                assert(m.take(i + 1).drop_last() =~= m.take(i as int));
                assert(m.take(i + 1)[i as int] == op_model(ops@[i as int]));
            }
            if let Op::Def { name, .. } = &ops[i] {
                entries.insert(name.as_str(), code.len());
            }
            compile_op(&mut code, &table, &ops[i]);
            i += 1;
        }
        assert(m.take(i as int) =~= m);
        let n = code.len();
        proof {
            assert(code_model(code@).len() == n);
            assert(compiled(m).code == code_model(code@));
            lemma_compiled_table_names(m);
            lemma_compiled_entry_points(m);
        }
        BytecodeProgram { instructions: code, function_table: entries, original_ops: Some(ops) }
    }
}

impl Default for BytecodeCompiler {
    fn default() -> (c: Self)
        ensures
            c.held().instructions@ == Seq::<BytecodeOp>::empty(),
            c.held().function_table@ == Map::<Seq<char>, usize>::empty(),
            c.held().original_ops is None,
    {
        Self::new()
    }
}

/// Whether an instruction's jump target, if any, lies in `0..=n`.
pub open spec fn target_ok(i: Instr, n: int) -> bool {
    match i {
        Instr::JumpIfZero(t) => 0 <= t <= n,
        Instr::Jump(t) => 0 <= t <= n,
        _ => true,
    }
}

/// Every jump of `code` lands inside it, or just past its end.
pub open spec fn jumps_within(code: Seq<Instr>) -> bool {
    forall|i: int| 0 <= i < code.len() ==> target_ok(#[trigger] code[i], code.len() as int)
}

proof fn lemma_push_keeps(code: Seq<Instr>, i: Instr)
    requires
        jumps_within(code),
        target_ok(i, code.len() + 1 as int),
    ensures
        jumps_within(code.push(i)),
{
    assert forall|k: int| 0 <= k < code.push(i).len() implies target_ok(
        #[trigger] code.push(i)[k],
        code.push(i).len() as int,
    ) by {
        if k < code.len() {
            assert(target_ok(code[k], code.len() as int));
        }
    }
}

proof fn lemma_update_keeps(code: Seq<Instr>, j: int, i: Instr)
    requires
        jumps_within(code),
        0 <= j < code.len(),
        target_ok(i, code.len() as int),
    ensures
        jumps_within(code.update(j, i)),
{
    assert forall|k: int| 0 <= k < code.update(j, i).len() implies target_ok(
        #[trigger] code.update(j, i)[k],
        code.update(j, i).len() as int,
    ) by {
        if k != j {
            assert(target_ok(code[k], code.len() as int));
        }
    }
}

proof fn lemma_simple_keeps(code: Seq<Instr>, op: OpModel)
    requires
        jumps_within(code),
    ensures
        jumps_within(code + simple_code(op)),
{
    let s = simple_code(op);
    assert forall|k: int| 0 <= k < (code + s).len() implies target_ok(#[trigger] (code + s)[k], (code + s).len() as int) by {
        if k < code.len() {
            assert(target_ok(code[k], code.len() as int));
        } else {
            assert(!(s[k - code.len()] is Jump) && !(s[k - code.len()] is JumpIfZero));
        }
    }
}

proof fn lemma_patch_exits_keeps(code: Seq<Instr>, exits: Seq<int>, target: int)
    requires
        jumps_within(code),
        0 <= target <= code.len(),
        forall|k: int| 0 <= k < exits.len() ==> 0 <= #[trigger] exits[k] < code.len(),
    ensures
        patch_exits(code, exits, target).len() == code.len(),
        jumps_within(patch_exits(code, exits, target)),
    decreases exits.len(),
{
    if exits.len() > 0 {
        assert(exits.drop_last().len() < exits.len());
        assert forall|k: int| 0 <= k < exits.drop_last().len() implies 0 <= #[trigger] exits.drop_last()[k] < code.len() by {
            assert(exits.drop_last()[k] == exits[k]);
        }
        lemma_patch_exits_keeps(code, exits.drop_last(), target);
        lemma_update_keeps(patch_exits(code, exits.drop_last(), target), exits.last(), Instr::Jump(target));
    }
}

proof fn lemma_ops_jumps(code: Seq<Instr>, t: Map<Seq<char>, usize>, ops: Seq<OpModel>)
    requires
        jumps_within(code),
    ensures
        jumps_within(c_ops(code, t, ops)),
        c_ops(code, t, ops).len() >= code.len(),
    decreases ops, 0nat,
{
    if ops.len() > 0 {
        lemma_ops_jumps(code, t, ops.drop_last());
        lemma_op_jumps(c_ops(code, t, ops.drop_last()), t, ops[ops.len() - 1]);
    }
}

proof fn lemma_repeat_jumps(code: Seq<Instr>, t: Map<Seq<char>, usize>, body: Seq<OpModel>, n: nat)
    requires
        jumps_within(code),
    ensures
        jumps_within(c_repeat(code, t, body, n)),
        c_repeat(code, t, body, n).len() >= code.len(),
    decreases body, n,
{
    if n > 0 {
        lemma_repeat_jumps(code, t, body, (n - 1) as nat);
        lemma_ops_jumps(c_repeat(code, t, body, (n - 1) as nat), t, body);
    }
}

proof fn lemma_cases_jumps(
    code: Seq<Instr>,
    t: Map<Seq<char>, usize>,
    var: Seq<char>,
    cases: Seq<(Seq<char>, Seq<OpModel>)>,
)
    requires
        jumps_within(code),
    ensures
        jumps_within(c_cases(code, t, var, cases).0),
        c_cases(code, t, var, cases).0.len() >= code.len(),
        forall|k: int| 0 <= k < c_cases(code, t, var, cases).1.len() ==> 0 <= #[trigger] c_cases(code, t, var, cases).1[k]
            < c_cases(code, t, var, cases).0.len(),
    decreases cases, 0nat,
{
    if cases.len() > 0 {
        lemma_cases_jumps(code, t, var, cases.drop_last());
        let (c1, exits) = c_cases(code, t, var, cases.drop_last());
        let case = cases[cases.len() - 1];
        lemma_push_keeps(c1, Instr::Load(var));
        lemma_push_keeps(c1.push(Instr::Load(var)), Instr::Push(case.0));
        let c2 = c1.push(Instr::Load(var)).push(Instr::Push(case.0)).push(Instr::Eq);
        lemma_push_keeps(c1.push(Instr::Load(var)).push(Instr::Push(case.0)), Instr::Eq);
        lemma_push_keeps(c2, Instr::JumpIfZero(0));
        lemma_ops_jumps(c2.push(Instr::JumpIfZero(0)), t, case.1);
        let c3 = c_ops(c2.push(Instr::JumpIfZero(0)), t, case.1);
        lemma_push_keeps(c3, Instr::Jump(0));
        let c4 = c3.push(Instr::Jump(0));
        lemma_update_keeps(c4, c2.len() as int, Instr::JumpIfZero(c4.len() as int));
    }
}

proof fn lemma_op_jumps(code: Seq<Instr>, t: Map<Seq<char>, usize>, op: OpModel)
    requires
        jumps_within(code),
    ensures
        jumps_within(c_op(code, t, op)),
        c_op(code, t, op).len() >= code.len(),
    decreases op, 0nat,
{
    match op {
        OpModel::If { condition, then, else_ } => {
            lemma_ops_jumps(code, t, condition);
            let c1 = c_ops(code, t, condition);
            lemma_push_keeps(c1, Instr::JumpIfZero(0));
            lemma_ops_jumps(c1.push(Instr::JumpIfZero(0)), t, then);
            let c2 = c_ops(c1.push(Instr::JumpIfZero(0)), t, then);
            match else_ {
                Some(e) => {
                    lemma_push_keeps(c2, Instr::Jump(0));
                    let c3 = c2.push(Instr::Jump(0));
                    lemma_update_keeps(c3, c1.len() as int, Instr::JumpIfZero(c3.len() as int));
                    let c4 = c3.update(c1.len() as int, Instr::JumpIfZero(c3.len() as int));
                    lemma_ops_jumps(c4, t, e);
                    let c5 = c_ops(c4, t, e);
                    lemma_update_keeps(c5, c2.len() as int, Instr::Jump(c5.len() as int));
                },
                None => {
                    lemma_update_keeps(c2, c1.len() as int, Instr::JumpIfZero(c2.len() as int));
                },
            }
        },
        OpModel::While { condition, body } => {
            lemma_ops_jumps(code, t, condition);
            let c1 = c_ops(code, t, condition);
            lemma_push_keeps(c1, Instr::JumpIfZero(0));
            lemma_ops_jumps(c1.push(Instr::JumpIfZero(0)), t, body);
            let c2 = c_ops(c1.push(Instr::JumpIfZero(0)), t, body);
            lemma_push_keeps(c2, Instr::Jump(code.len() as int));
            let c3 = c2.push(Instr::Jump(code.len() as int));
            lemma_update_keeps(c3, c1.len() as int, Instr::JumpIfZero(c3.len() as int));
        },
        OpModel::Loop { count, body } => {
            if count <= 5 {
                lemma_repeat_jumps(code, t, body, count as nat);
            } else if count == 1000 && body.len() <= 5 {
                let c1 = code.push(Instr::Push(dec_str(count as nat)));
                lemma_push_keeps(code, Instr::Push(dec_str(count as nat)));
                lemma_push_keeps(c1, Instr::Dup);
                lemma_push_keeps(c1.push(Instr::Dup), Instr::Push(zero_text()));
                lemma_push_keeps(c1.push(Instr::Dup).push(Instr::Push(zero_text())), Instr::Gt);
                let c2 = c1.push(Instr::Dup).push(Instr::Push(zero_text())).push(Instr::Gt);
                lemma_push_keeps(c2, Instr::JumpIfZero(0));
                lemma_ops_jumps(c2.push(Instr::JumpIfZero(0)), t, body);
                let c3 = c_ops(c2.push(Instr::JumpIfZero(0)), t, body);
                lemma_push_keeps(c3, Instr::Push(one_text()));
                lemma_push_keeps(c3.push(Instr::Push(one_text())), Instr::Sub);
                lemma_push_keeps(c3.push(Instr::Push(one_text())).push(Instr::Sub), Instr::Jump(c1.len() as int));
                let c4 = c3.push(Instr::Push(one_text())).push(Instr::Sub).push(Instr::Jump(c1.len() as int));
                lemma_update_keeps(c4, c2.len() as int, Instr::JumpIfZero(c4.len() as int));
                lemma_push_keeps(c4.update(c2.len() as int, Instr::JumpIfZero(c4.len() as int)), Instr::Pop);
            } else {
                let c1 = code.push(Instr::Push(dec_str(count as nat)));
                let var = loop_counter_name(c1.len());
                lemma_push_keeps(code, Instr::Push(dec_str(count as nat)));
                lemma_push_keeps(c1, Instr::Store(var));
                let c2 = c1.push(Instr::Store(var));
                lemma_push_keeps(c2, Instr::Load(var));
                lemma_push_keeps(c2.push(Instr::Load(var)), Instr::Push(zero_text()));
                lemma_push_keeps(c2.push(Instr::Load(var)).push(Instr::Push(zero_text())), Instr::Gt);
                let c3 = c2.push(Instr::Load(var)).push(Instr::Push(zero_text())).push(Instr::Gt);
                lemma_push_keeps(c3, Instr::JumpIfZero(0));
                lemma_ops_jumps(c3.push(Instr::JumpIfZero(0)), t, body);
                let c4 = c_ops(c3.push(Instr::JumpIfZero(0)), t, body);
                lemma_push_keeps(c4, Instr::Load(var));
                lemma_push_keeps(c4.push(Instr::Load(var)), Instr::Push(one_text()));
                lemma_push_keeps(c4.push(Instr::Load(var)).push(Instr::Push(one_text())), Instr::Sub);
                lemma_push_keeps(c4.push(Instr::Load(var)).push(Instr::Push(one_text())).push(Instr::Sub), Instr::Store(var));
                let c45 = c4.push(Instr::Load(var)).push(Instr::Push(one_text())).push(Instr::Sub).push(Instr::Store(var));
                lemma_push_keeps(c45, Instr::Jump(c2.len() as int));
                let c5 = c45.push(Instr::Jump(c2.len() as int));
                lemma_update_keeps(c5, c3.len() as int, Instr::JumpIfZero(c5.len() as int));
            }
        },
        OpModel::Def { name, params, body } => {
            if t.dom().contains(name) {
                lemma_push_keeps(code, Instr::FunctionEntry(name, params));
                lemma_ops_jumps(code.push(Instr::FunctionEntry(name, params)), t, body);
                lemma_push_keeps(c_ops(code.push(Instr::FunctionEntry(name, params)), t, body), Instr::Return);
            }
        },
        OpModel::Match { value, cases, default } => {
            lemma_ops_jumps(code, t, value);
            let c1 = c_ops(code, t, value);
            let var = match_value_name(c1.len());
            lemma_push_keeps(c1, Instr::Store(var));
            let c2 = c1.push(Instr::Store(var));
            lemma_cases_jumps(c2, t, var, cases);
            let (c3, exits) = c_cases(c2, t, var, cases);
            let c4 = match default {
                Some(d) => c_ops(c3, t, d),
                None => c3,
            };
            match default {
                Some(d) => lemma_ops_jumps(c3, t, d),
                None => {},
            }
            assert forall|k: int| 0 <= k < exits.len() implies 0 <= #[trigger] exits[k] < c4.len() by {
                assert(exits[k] < c3.len());
            }
            lemma_patch_exits_keeps(c4, exits, c4.len() as int);
        },
        OpModel::IfPassed(b) => lemma_ops_jumps(code, t, b),
        OpModel::Else(b) => lemma_ops_jumps(code, t, b),
        _ => lemma_simple_keeps(code, op),
    }
}

/// Every jump of a compiled program lands inside it, or just past its last
/// instruction, where execution ends.
pub proof fn lemma_compiled_jumps_in_range(ops: Seq<OpModel>)
    ensures
        jumps_within(compiled(ops).code),
{
    let pre = c_pre(CState { code: seq![], table: Map::empty() }, ops);
    lemma_ops_jumps(seq![], pre.table, ops);
}

/// Whether `op` defines a function named `name`.
pub open spec fn def_named(op: OpModel, name: Seq<char>) -> bool {
    op matches OpModel::Def { name: n, .. } && n == name
}

/// Whether `ops` defines, at top level, a function named `name`.
pub open spec fn defines(ops: Seq<OpModel>, name: Seq<char>) -> bool {
    exists|i: int| 0 <= i < ops.len() && def_named(#[trigger] ops[i], name)
}

proof fn lemma_pre_names(st: CState, ops: Seq<OpModel>)
    requires
        st.table == Map::<Seq<char>, usize>::empty(),
    ensures
        forall|name: Seq<char>| #[trigger] c_pre(st, ops).table.dom().contains(name) <==> defines(ops, name),
    decreases ops.len(),
{
    if ops.len() > 0 {
        let prev = ops.drop_last();
        let k = ops.len() - 1;
        lemma_pre_names(st, prev);
        let s = c_pre(st, prev);
        assert forall|name: Seq<char>| #[trigger] c_pre(st, ops).table.dom().contains(name) <==> defines(ops, name) by {
            if defines(prev, name) {
                let i = choose|i: int| 0 <= i < prev.len() && def_named(#[trigger] prev[i], name);
                assert(ops[i] == prev[i]);
                assert(defines(ops, name));
            }
            if defines(ops, name) {
                let i = choose|i: int| 0 <= i < ops.len() && def_named(#[trigger] ops[i], name);
                if i < k {
                    assert(prev[i] == ops[i]);
                    assert(defines(prev, name));
                }
            }
            match ops[k] {
                OpModel::Def { name: n, params, body } => {
                    assert(c_pre(st, ops).table == s.table.insert(n, s.code.len() as usize));
                    if n == name {
                        assert(def_named(ops[k], name));
                    }
                },
                _ => {
                    assert(c_pre(st, ops) == s);
                    assert(!def_named(ops[k], name));
                },
            }
        }
    } else {
        assert forall|name: Seq<char>| #[trigger] c_pre(st, ops).table.dom().contains(name) <==> defines(ops, name) by {}
    }
}

/// `r` begins with `base`: compiling further only appends instructions and
/// patches jumps that lie past `base`.
pub open spec fn extends(base: Seq<Instr>, r: Seq<Instr>) -> bool {
    &&& base.len() <= r.len()
    &&& forall|k: int| 0 <= k < base.len() ==> #[trigger] r[k] == base[k]
}

proof fn lemma_patch_exits_ext(code: Seq<Instr>, exits: Seq<int>, target: int, b: int)
    requires
        0 <= b <= code.len(),
        forall|k: int| 0 <= k < exits.len() ==> b <= #[trigger] exits[k] < code.len(),
    ensures
        patch_exits(code, exits, target).len() == code.len(),
        forall|k: int| 0 <= k < b ==> #[trigger] patch_exits(code, exits, target)[k] == code[k],
    decreases exits.len(),
{
    if exits.len() > 0 {
        assert forall|k: int| 0 <= k < exits.drop_last().len() implies b <= #[trigger] exits.drop_last()[k]
            < code.len() by {
            assert(exits.drop_last()[k] == exits[k]);
        }
        lemma_patch_exits_ext(code, exits.drop_last(), target, b);
        assert(b <= exits[exits.len() - 1]);
    }
}

proof fn lemma_ops_ext(code: Seq<Instr>, t: Map<Seq<char>, usize>, ops: Seq<OpModel>)
    ensures
        extends(code, c_ops(code, t, ops)),
    decreases ops, 0nat,
{
    if ops.len() > 0 {
        lemma_ops_ext(code, t, ops.drop_last());
        lemma_op_ext(c_ops(code, t, ops.drop_last()), t, ops[ops.len() - 1]);
    }
}

proof fn lemma_repeat_ext(code: Seq<Instr>, t: Map<Seq<char>, usize>, body: Seq<OpModel>, n: nat)
    ensures
        extends(code, c_repeat(code, t, body, n)),
    decreases body, n,
{
    if n > 0 {
        lemma_repeat_ext(code, t, body, (n - 1) as nat);
        lemma_ops_ext(c_repeat(code, t, body, (n - 1) as nat), t, body);
    }
}

proof fn lemma_cases_ext(
    code: Seq<Instr>,
    t: Map<Seq<char>, usize>,
    var: Seq<char>,
    cases: Seq<(Seq<char>, Seq<OpModel>)>,
)
    ensures
        extends(code, c_cases(code, t, var, cases).0),
        forall|k: int| 0 <= k < c_cases(code, t, var, cases).1.len() ==> code.len() <= #[trigger] c_cases(
            code,
            t,
            var,
            cases,
        ).1[k] < c_cases(code, t, var, cases).0.len(),
    decreases cases, 0nat,
{
    if cases.len() > 0 {
        lemma_cases_ext(code, t, var, cases.drop_last());
        let (c1, exits) = c_cases(code, t, var, cases.drop_last());
        let case = cases[cases.len() - 1];
        let c2 = c1.push(Instr::Load(var)).push(Instr::Push(case.0)).push(Instr::Eq);
        lemma_ops_ext(c2.push(Instr::JumpIfZero(0)), t, case.1);
        let c3 = c_ops(c2.push(Instr::JumpIfZero(0)), t, case.1);
        let c4 = c3.push(Instr::Jump(0));
        let r = c_cases(code, t, var, cases);
        assert(r.0 == c4.update(c2.len() as int, Instr::JumpIfZero(c4.len() as int)));
        assert(r.1 == exits.push(c3.len() as int));
        assert forall|k: int| 0 <= k < code.len() implies #[trigger] r.0[k] == code[k] by {
            assert(c1[k] == code[k]);
            assert(c3[k] == c2.push(Instr::JumpIfZero(0))[k]);
        }
        assert forall|k: int| 0 <= k < r.1.len() implies code.len() <= #[trigger] r.1[k] < r.0.len() by {
            if k < exits.len() {
                assert(r.1[k] == exits[k]);
            }
        }
    }
}

proof fn lemma_op_ext(code: Seq<Instr>, t: Map<Seq<char>, usize>, op: OpModel)
    ensures
        extends(code, c_op(code, t, op)),
    decreases op, 0nat,
{
    let r = c_op(code, t, op);
    match op {
        OpModel::If { condition, then, else_ } => {
            lemma_ops_ext(code, t, condition);
            let c1 = c_ops(code, t, condition);
            lemma_ops_ext(c1.push(Instr::JumpIfZero(0)), t, then);
            let c2 = c_ops(c1.push(Instr::JumpIfZero(0)), t, then);
            match else_ {
                Some(e) => {
                    let c3 = c2.push(Instr::Jump(0));
                    let c4 = c3.update(c1.len() as int, Instr::JumpIfZero(c3.len() as int));
                    lemma_ops_ext(c4, t, e);
                    let c5 = c_ops(c4, t, e);
                    assert forall|k: int| 0 <= k < code.len() implies #[trigger] r[k] == code[k] by {
                        assert(c1[k] == code[k]);
                        assert(c2[k] == c1.push(Instr::JumpIfZero(0))[k]);
                        assert(c5[k] == c4[k]);
                    }
                },
                None => {
                    assert forall|k: int| 0 <= k < code.len() implies #[trigger] r[k] == code[k] by {
                        assert(c1[k] == code[k]);
                        assert(c2[k] == c1.push(Instr::JumpIfZero(0))[k]);
                    }
                },
            }
        },
        OpModel::While { condition, body } => {
            lemma_ops_ext(code, t, condition);
            let c1 = c_ops(code, t, condition);
            lemma_ops_ext(c1.push(Instr::JumpIfZero(0)), t, body);
            let c2 = c_ops(c1.push(Instr::JumpIfZero(0)), t, body);
            assert forall|k: int| 0 <= k < code.len() implies #[trigger] r[k] == code[k] by {
                assert(c1[k] == code[k]);
                assert(c2[k] == c1.push(Instr::JumpIfZero(0))[k]);
            }
        },
        OpModel::Loop { count, body } => {
            if count <= 5 {
                lemma_repeat_ext(code, t, body, count as nat);
            } else if count == 1000 && body.len() <= 5 {
                let c1 = code.push(Instr::Push(dec_str(count as nat)));
                let c2 = c1.push(Instr::Dup).push(Instr::Push(zero_text())).push(Instr::Gt);
                lemma_ops_ext(c2.push(Instr::JumpIfZero(0)), t, body);
                let c3 = c_ops(c2.push(Instr::JumpIfZero(0)), t, body);
                assert forall|k: int| 0 <= k < code.len() implies #[trigger] r[k] == code[k] by {
                    assert(c3[k] == c2.push(Instr::JumpIfZero(0))[k]);
                }
            } else {
                let c1 = code.push(Instr::Push(dec_str(count as nat)));
                let var = loop_counter_name(c1.len());
                let c2 = c1.push(Instr::Store(var));
                let c3 = c2.push(Instr::Load(var)).push(Instr::Push(zero_text())).push(Instr::Gt);
                lemma_ops_ext(c3.push(Instr::JumpIfZero(0)), t, body);
                let c4 = c_ops(c3.push(Instr::JumpIfZero(0)), t, body);
                assert forall|k: int| 0 <= k < code.len() implies #[trigger] r[k] == code[k] by {
                    assert(c4[k] == c3.push(Instr::JumpIfZero(0))[k]);
                }
            }
        },
        OpModel::Def { name, params, body } => {
            if t.dom().contains(name) {
                lemma_ops_ext(code.push(Instr::FunctionEntry(name, params)), t, body);
                let c1 = c_ops(code.push(Instr::FunctionEntry(name, params)), t, body);
                assert forall|k: int| 0 <= k < code.len() implies #[trigger] r[k] == code[k] by {
                    assert(c1[k] == code.push(Instr::FunctionEntry(name, params))[k]);
                }
            }
        },
        OpModel::Match { value, cases, default } => {
            lemma_ops_ext(code, t, value);
            let c1 = c_ops(code, t, value);
            let var = match_value_name(c1.len());
            let c2 = c1.push(Instr::Store(var));
            lemma_cases_ext(c2, t, var, cases);
            let (c3, exits) = c_cases(c2, t, var, cases);
            let c4 = match default {
                Some(d) => c_ops(c3, t, d),
                None => c3,
            };
            match default {
                Some(d) => lemma_ops_ext(c3, t, d),
                None => {},
            }
            assert forall|k: int| 0 <= k < exits.len() implies c2.len() <= #[trigger] exits[k] < c4.len() by {}
            lemma_patch_exits_ext(c4, exits, c4.len() as int, c2.len() as int);
            assert forall|k: int| 0 <= k < code.len() implies #[trigger] r[k] == code[k] by {
                assert(c1[k] == code[k]);
                assert(c3[k] == c2[k]);
                assert(c4[k] == c3[k]);
                assert(r[k] == c4[k]);
            }
        },
        OpModel::IfPassed(b) => lemma_ops_ext(code, t, b),
        OpModel::Else(b) => lemma_ops_ext(code, t, b),
        _ => {
            assert forall|k: int| 0 <= k < code.len() implies #[trigger] r[k] == code[k] by {}
        },
    }
}

proof fn lemma_entries(t: Map<Seq<char>, usize>, ops: Seq<OpModel>)
    requires
        forall|name: Seq<char>| defines(ops, name) ==> #[trigger] t.dom().contains(name),
        c_ops(seq![], t, ops).len() <= usize::MAX,
    ensures
        forall|name: Seq<char>| #[trigger] entry_table(t, ops).dom().contains(name) <==> defines(ops, name),
        forall|name: Seq<char>| #[trigger] entry_table(t, ops).dom().contains(name) ==> {
            &&& entry_table(t, ops)[name] < c_ops(seq![], t, ops).len()
            &&& c_ops(seq![], t, ops)[entry_table(t, ops)[name] as int] == Instr::FunctionEntry(
                name,
                last_def_params(ops, name),
            )
        },
    decreases ops.len(),
{
    if ops.len() > 0 {
        let prev = ops.drop_last();
        let k = ops.len() - 1;
        assert forall|name: Seq<char>| defines(prev, name) implies #[trigger] t.dom().contains(name) by {
            let i = choose|i: int| 0 <= i < prev.len() && def_named(#[trigger] prev[i], name);
            assert(ops[i] == prev[i]);
            assert(defines(ops, name));
        }
        let cp = c_ops(seq![], t, prev);
        let ca = c_ops(seq![], t, ops);
        lemma_op_ext(cp, t, ops[k]);
        assert(ca == c_op(cp, t, ops[k]));
        lemma_entries(t, prev);
        let ep = entry_table(t, prev);
        let ea = entry_table(t, ops);
        assert forall|name: Seq<char>| #[trigger] ea.dom().contains(name) <==> defines(ops, name) by {
            if defines(prev, name) {
                let i = choose|i: int| 0 <= i < prev.len() && def_named(#[trigger] prev[i], name);
                assert(ops[i] == prev[i]);
                assert(defines(ops, name));
            }
            if defines(ops, name) {
                let i = choose|i: int| 0 <= i < ops.len() && def_named(#[trigger] ops[i], name);
                if i < k {
                    assert(prev[i] == ops[i]);
                    assert(defines(prev, name));
                }
            }
            match ops[k] {
                OpModel::Def { name: n, .. } => {
                    if n == name {
                        assert(def_named(ops[k], name));
                    }
                },
                _ => {
                    assert(!def_named(ops[k], name));
                },
            }
        }
        assert forall|name: Seq<char>| #[trigger] ea.dom().contains(name) implies {
            &&& ea[name] < ca.len()
            &&& ca[ea[name] as int] == Instr::FunctionEntry(name, last_def_params(ops, name))
        } by {
            match ops[k] {
                OpModel::Def { name: n, params, body } => {
                    if n == name {
                        assert(def_named(ops[k], name));
                        assert(defines(ops, name));
                        assert(t.dom().contains(name));
                        let c1 = c_ops(cp.push(Instr::FunctionEntry(name, params)), t, body);
                        lemma_ops_ext(cp.push(Instr::FunctionEntry(name, params)), t, body);
                        assert(c1[cp.len() as int] == cp.push(Instr::FunctionEntry(name, params))[cp.len() as int]);
                        assert(ca[cp.len() as int] == c1[cp.len() as int]);
                    } else {
                        assert(ep.dom().contains(name));
                        assert(ca[ep[name] as int] == cp[ep[name] as int]);
                    }
                },
                _ => {
                    assert(ep.dom().contains(name));
                    assert(ca[ep[name] as int] == cp[ep[name] as int]);
                },
            }
        }
    } else {
        assert forall|name: Seq<char>| #[trigger] entry_table(t, ops).dom().contains(name) <==> defines(ops, name) by {}
    }
}

/// The function table of a compiled program names exactly the functions
/// that the program defines at top level.
pub proof fn lemma_compiled_table_names(ops: Seq<OpModel>)
    requires
        compiled(ops).code.len() <= usize::MAX,
    ensures
        forall|name: Seq<char>| #[trigger] compiled(ops).table.dom().contains(name) <==> defines(ops, name),
{
    let pre = c_pre(CState { code: seq![], table: Map::empty() }, ops);
    lemma_pre_names(CState { code: seq![], table: Map::empty() }, ops);
    lemma_entries(pre.table, ops);
}

/// Each function in the table of a compiled program is entered where the
/// table says: that instruction is the `FunctionEntry` of the function,
/// with the parameters of its last top-level definition.
pub proof fn lemma_compiled_entry_points(ops: Seq<OpModel>)
    requires
        compiled(ops).code.len() <= usize::MAX,
    ensures
        forall|name: Seq<char>| #[trigger] compiled(ops).table.dom().contains(name) ==> {
            &&& compiled(ops).table[name] < compiled(ops).code.len()
            &&& compiled(ops).code[compiled(ops).table[name] as int] == Instr::FunctionEntry(
                name,
                last_def_params(ops, name),
            )
        },
{
    let pre = c_pre(CState { code: seq![], table: Map::empty() }, ops);
    lemma_pre_names(CState { code: seq![], table: Map::empty() }, ops);
    lemma_entries(pre.table, ops);
}

/// An operation with no nested operations whose instruction bears its name.
pub open spec fn plain_op(op: OpModel) -> bool {
    ||| op is Push
    ||| op is Add
    ||| op is Sub
    ||| op is Mul
    ||| op is Div
    ||| op is Mod
    ||| op is Eq
    ||| op is Gt
    ||| op is Lt
    ||| op is Not
    ||| op is And
    ||| op is Or
    ||| op is Negate
    ||| op is Dup
    ||| op is Swap
    ||| op is Pop
    ||| op is Load
    ||| op is Store
    ||| op is Call
    ||| op is Return
    ||| op is Emit
    ||| op is Break
    ||| op is Continue
}

/// Whether instruction `i` is the one of the same name as the plain
/// operation `op`, with the same operand.
pub open spec fn same_named(op: OpModel, i: Instr) -> bool {
    match op {
        OpModel::Push(s) => i == Instr::Push(s),
        OpModel::Add => i == Instr::Add,
        OpModel::Sub => i == Instr::Sub,
        OpModel::Mul => i == Instr::Mul,
        OpModel::Div => i == Instr::Div,
        OpModel::Mod => i == Instr::Mod,
        OpModel::Eq => i == Instr::Eq,
        OpModel::Gt => i == Instr::Gt,
        OpModel::Lt => i == Instr::Lt,
        OpModel::Not => i == Instr::Not,
        OpModel::And => i == Instr::And,
        OpModel::Or => i == Instr::Or,
        OpModel::Negate => i == Instr::Negate,
        OpModel::Dup => i == Instr::Dup,
        OpModel::Swap => i == Instr::Swap,
        OpModel::Pop => i == Instr::Pop,
        OpModel::Load(s) => i == Instr::Load(s),
        OpModel::Store(s) => i == Instr::Store(s),
        OpModel::Call(s) => i == Instr::Call(s),
        OpModel::Return => i == Instr::Return,
        OpModel::Emit(s) => i == Instr::Emit(s),
        OpModel::Break => i == Instr::Break,
        OpModel::Continue => i == Instr::Continue,
        _ => false,
    }
}

proof fn lemma_plain_c_ops(code: Seq<Instr>, t: Map<Seq<char>, usize>, ops: Seq<OpModel>)
    requires
        forall|k: int| 0 <= k < ops.len() ==> plain_op(#[trigger] ops[k]),
    ensures
        c_ops(code, t, ops).len() == code.len() + ops.len(),
        forall|k: int| 0 <= k < code.len() ==> #[trigger] c_ops(code, t, ops)[k] == code[k],
        forall|k: int| 0 <= k < ops.len() ==> same_named(#[trigger] ops[k], c_ops(code, t, ops)[code.len() + k]),
    decreases ops.len(),
{
    if ops.len() > 0 {
        let prev = ops.drop_last();
        assert forall|k: int| 0 <= k < prev.len() implies plain_op(#[trigger] prev[k]) by {
            assert(prev[k] == ops[k]);
        }
        lemma_plain_c_ops(code, t, prev);
        let pc = c_ops(code, t, prev);
        let last = ops[ops.len() - 1];
        assert(plain_op(last));
        let r = c_ops(code, t, ops);
        assert(r == c_op(pc, t, last));
        assert(r == pc + simple_code(last));
        assert(simple_code(last).len() == 1);
        assert(same_named(last, simple_code(last)[0]));
        assert forall|k: int| 0 <= k < code.len() implies #[trigger] r[k] == code[k] by {
            assert(r[k] == pc[k]);
        }
        assert forall|k: int| 0 <= k < ops.len() implies same_named(#[trigger] ops[k], r[code.len() + k]) by {
            if k < prev.len() {
                assert(ops[k] == prev[k]);
                assert(r[code.len() + k] == pc[code.len() + k]);
            } else {
                assert(r[code.len() + k] == simple_code(last)[0]);
            }
        }
    }
}

/// A program of plain operations compiles to one instruction per
/// operation, in order, each the instruction of the operation's own name
/// and operand: `lt` stays less-than, `gt` greater-than, and so on.
pub proof fn lemma_plain_ops_compile_one_to_one(ops: Seq<OpModel>)
    requires
        forall|k: int| 0 <= k < ops.len() ==> plain_op(#[trigger] ops[k]),
    ensures
        compiled(ops).code.len() == ops.len(),
        forall|k: int| 0 <= k < ops.len() ==> same_named(#[trigger] ops[k], compiled(ops).code[k]),
{
    let pre = c_pre(CState { code: seq![], table: Map::empty() }, ops);
    lemma_plain_c_ops(seq![], pre.table, ops);
    assert forall|k: int| 0 <= k < ops.len() implies same_named(#[trigger] ops[k], compiled(ops).code[k]) by {
        assert(same_named(ops[k], c_ops(seq![], pre.table, ops)[0 + k]));
    }
}

} // verus!
