use vstd::prelude::*;

verus! {

/// An operation of the stack machine, as the DSL compiler produces it.
///
/// Numeric operands are kept as the literal text that the source gave
/// (text that `f64::from_str` accepts); the machine reads them as `f64`.
#[derive(Debug, PartialEq)]
pub enum Op {
    Push(String),
    Emit(String),
    EmitEvent { category: String, message: String },
    AssertEqualStack { depth: usize },
    AssertTop(String),
    AssertMemory { key: String, expected: String },
    Break,
    Continue,
    Load(String),
    Store(String),
    Add,
    Sub,
    Mul,
    Div,
    Mod,
    Eq,
    Gt,
    Lt,
    Not,
    And,
    Or,
    Negate,
    Dup,
    Swap,
    Over,
    Pop,
    Return,
    Call(String),
    DumpStack,
    DumpMemory,
    DumpState,
    RankedVote { candidates: usize, ballots: usize },
    LiquidDelegate { from: String, to: String },
    VoteThreshold(String),
    QuorumThreshold(String),
    StoreP(String),
    LoadP(String),
    LoadVersionP { key: String, version: u64 },
    ListVersionsP(String),
    DiffVersionsP { key: String, v1: u64, v2: u64 },
    CreateResource(String),
    VerifySignature,
    RequireRole(String),
    Macro(String),
    Def { name: String, params: Vec<String>, body: Vec<Op> },
    If { condition: Vec<Op>, then: Vec<Op>, else_: Option<Vec<Op>> },
    Loop { count: usize, body: Vec<Op> },
    While { condition: Vec<Op>, body: Vec<Op> },
    Match { value: Vec<Op>, cases: Vec<(String, Vec<Op>)>, default: Option<Vec<Op>> },
    IfPassed(Vec<Op>),
    Else(Vec<Op>),
    Nop,
}

/// The mathematical value of an [`Op`]: strings become character sequences
/// and vectors become sequences.
pub enum OpModel {
    Push(Seq<char>),
    Emit(Seq<char>),
    EmitEvent { category: Seq<char>, message: Seq<char> },
    AssertEqualStack { depth: usize },
    AssertTop(Seq<char>),
    AssertMemory { key: Seq<char>, expected: Seq<char> },
    Break,
    Continue,
    Load(Seq<char>),
    Store(Seq<char>),
    Add,
    Sub,
    Mul,
    Div,
    Mod,
    Eq,
    Gt,
    Lt,
    Not,
    And,
    Or,
    Negate,
    Dup,
    Swap,
    Over,
    Pop,
    Return,
    Call(Seq<char>),
    DumpStack,
    DumpMemory,
    DumpState,
    RankedVote { candidates: usize, ballots: usize },
    LiquidDelegate { from: Seq<char>, to: Seq<char> },
    VoteThreshold(Seq<char>),
    QuorumThreshold(Seq<char>),
    StoreP(Seq<char>),
    LoadP(Seq<char>),
    LoadVersionP { key: Seq<char>, version: u64 },
    ListVersionsP(Seq<char>),
    DiffVersionsP { key: Seq<char>, v1: u64, v2: u64 },
    CreateResource(Seq<char>),
    VerifySignature,
    RequireRole(Seq<char>),
    Macro(Seq<char>),
    Def { name: Seq<char>, params: Seq<Seq<char>>, body: Seq<OpModel> },
    If { condition: Seq<OpModel>, then: Seq<OpModel>, else_: Option<Seq<OpModel>> },
    Loop { count: usize, body: Seq<OpModel> },
    While { condition: Seq<OpModel>, body: Seq<OpModel> },
    Match {
        value: Seq<OpModel>,
        cases: Seq<(Seq<char>, Seq<OpModel>)>,
        default: Option<Seq<OpModel>>,
    },
    IfPassed(Seq<OpModel>),
    Else(Seq<OpModel>),
    Nop,
}

/// The model of a sequence of strings.
pub open spec fn strings_model(s: Seq<String>) -> Seq<Seq<char>> {
    s.map_values(|x: String| x@)
}

pub open spec fn op_model(op: Op) -> OpModel
    decreases op,
{
    match op {
        Op::Push(s) => OpModel::Push(s@),
        Op::Emit(s) => OpModel::Emit(s@),
        Op::EmitEvent { category, message } => OpModel::EmitEvent {
            category: category@,
            message: message@,
        },
        Op::AssertEqualStack { depth } => OpModel::AssertEqualStack { depth },
        Op::AssertTop(s) => OpModel::AssertTop(s@),
        Op::AssertMemory { key, expected } => OpModel::AssertMemory {
            key: key@,
            expected: expected@,
        },
        Op::Break => OpModel::Break,
        Op::Continue => OpModel::Continue,
        Op::Load(s) => OpModel::Load(s@),
        Op::Store(s) => OpModel::Store(s@),
        Op::Add => OpModel::Add,
        Op::Sub => OpModel::Sub,
        Op::Mul => OpModel::Mul,
        Op::Div => OpModel::Div,
        Op::Mod => OpModel::Mod,
        Op::Eq => OpModel::Eq,
        Op::Gt => OpModel::Gt,
        Op::Lt => OpModel::Lt,
        Op::Not => OpModel::Not,
        Op::And => OpModel::And,
        Op::Or => OpModel::Or,
        Op::Negate => OpModel::Negate,
        Op::Dup => OpModel::Dup,
        Op::Swap => OpModel::Swap,
        Op::Over => OpModel::Over,
        Op::Pop => OpModel::Pop,
        Op::Return => OpModel::Return,
        Op::Call(s) => OpModel::Call(s@),
        Op::DumpStack => OpModel::DumpStack,
        Op::DumpMemory => OpModel::DumpMemory,
        Op::DumpState => OpModel::DumpState,
        Op::RankedVote { candidates, ballots } => OpModel::RankedVote { candidates, ballots },
        Op::LiquidDelegate { from, to } => OpModel::LiquidDelegate { from: from@, to: to@ },
        Op::VoteThreshold(s) => OpModel::VoteThreshold(s@),
        Op::QuorumThreshold(s) => OpModel::QuorumThreshold(s@),
        Op::StoreP(s) => OpModel::StoreP(s@),
        Op::LoadP(s) => OpModel::LoadP(s@),
        Op::LoadVersionP { key, version } => OpModel::LoadVersionP { key: key@, version },
        Op::ListVersionsP(s) => OpModel::ListVersionsP(s@),
        Op::DiffVersionsP { key, v1, v2 } => OpModel::DiffVersionsP { key: key@, v1, v2 },
        Op::CreateResource(s) => OpModel::CreateResource(s@),
        Op::VerifySignature => OpModel::VerifySignature,
        Op::RequireRole(s) => OpModel::RequireRole(s@),
        Op::Macro(s) => OpModel::Macro(s@),
        Op::Def { name, params, body } => OpModel::Def {
            name: name@,
            params: strings_model(params@),
            body: ops_model(body@),
        },
        Op::If { condition, then, else_ } => OpModel::If {
            condition: ops_model(condition@),
            then: ops_model(then@),
            else_: match else_ {
                Some(e) => Some(ops_model(e@)),
                None => None,
            },
        },
        Op::Loop { count, body } => OpModel::Loop { count, body: ops_model(body@) },
        Op::While { condition, body } => OpModel::While {
            condition: ops_model(condition@),
            body: ops_model(body@),
        },
        Op::Match { value, cases, default } => OpModel::Match {
            value: ops_model(value@),
            cases: cases_model(cases@),
            default: match default {
                Some(d) => Some(ops_model(d@)),
                None => None,
            },
        },
        Op::IfPassed(b) => OpModel::IfPassed(ops_model(b@)),
        Op::Else(b) => OpModel::Else(ops_model(b@)),
        Op::Nop => OpModel::Nop,
    }
}

pub open spec fn ops_model(s: Seq<Op>) -> Seq<OpModel>
    decreases s,
{
    Seq::new(
        s.len(),
        |i: int|
            if 0 <= i < s.len() {
                op_model(s[i])
            } else {
                OpModel::Nop
            },
    )
}

pub open spec fn cases_model(s: Seq<(String, Vec<Op>)>) -> Seq<(Seq<char>, Seq<OpModel>)>
    decreases s,
{
    Seq::new(
        s.len(),
        |i: int|
            if 0 <= i < s.len() {
                (s[i].0@, ops_model(s[i].1@))
            } else {
                (Seq::empty(), Seq::empty())
            },
    )
}

/// `acc` with `op` appended, unless `op` is a no-op.
pub open spec fn push_op(acc: Seq<OpModel>, op: OpModel) -> Seq<OpModel> {
    if op is Nop {
        acc
    } else {
        acc.push(op)
    }
}

/// No operation in `op`, at any depth, is a `Nop`.
pub open spec fn nop_free(op: OpModel) -> bool
    decreases op, 1int,
{
    match op {
        OpModel::Nop => false,
        OpModel::Def { body, .. } => ops_nop_free(body),
        OpModel::If { condition, then, else_ } => {
            &&& ops_nop_free(condition)
            &&& ops_nop_free(then)
            &&& match else_ {
                Some(e) => ops_nop_free(e),
                None => true,
            }
        },
        OpModel::Loop { body, .. } => ops_nop_free(body),
        OpModel::While { condition, body } => ops_nop_free(condition) && ops_nop_free(body),
        OpModel::Match { value, cases, default } => {
            &&& ops_nop_free(value)
            &&& cases_nop_free(cases)
            &&& match default {
                Some(d) => ops_nop_free(d),
                None => true,
            }
        },
        OpModel::IfPassed(b) => ops_nop_free(b),
        OpModel::Else(b) => ops_nop_free(b),
        _ => true,
    }
}

/// No operation of `s`, at any depth, is a `Nop`.
pub open spec fn ops_nop_free(s: Seq<OpModel>) -> bool
    decreases s, 0int,
{
    if s.len() == 0 {
        true
    } else {
        ops_nop_free(s.drop_last()) && nop_free(s.last())
    }
}

/// No operation of any case of `cs`, at any depth, is a `Nop`.
pub open spec fn cases_nop_free(cs: Seq<(Seq<char>, Seq<OpModel>)>) -> bool
    decreases cs, 0int,
{
    if cs.len() == 0 {
        true
    } else {
        proof {
            assert(decreases_to!(cs => cs[cs.len() - 1]));
        }
        cases_nop_free(cs.drop_last()) && ops_nop_free(cs.last().1)
    }
}

/// No operation of `ops`, at any depth, is a `Nop`.
pub open spec fn all_nop_free(ops: Seq<OpModel>) -> bool {
    forall|k: int| 0 <= k < ops.len() ==> #[trigger] nop_free(ops[k])
}

pub proof fn lemma_ops_nop_free(s: Seq<OpModel>)
    ensures
        ops_nop_free(s) == all_nop_free(s),
    decreases s.len(),
{
    if s.len() > 0 {
        lemma_ops_nop_free(s.drop_last());
        assert forall|k: int| 0 <= k < s.drop_last().len() implies s.drop_last()[k] == s[k] by {}
        if all_nop_free(s) {
            assert(nop_free(s[s.len() - 1]));
            assert forall|k: int| 0 <= k < s.drop_last().len() implies #[trigger] nop_free(s.drop_last()[k]) by {
                assert(nop_free(s[k]));
            }
        }
        if ops_nop_free(s) {
            assert forall|k: int| 0 <= k < s.len() implies #[trigger] nop_free(s[k]) by {
                if k < s.len() - 1 {
                    assert(nop_free(s.drop_last()[k]));
                }
            }
        }
    }
}

pub proof fn lemma_cases_nop_free(cs: Seq<(Seq<char>, Seq<OpModel>)>)
    ensures
        cases_nop_free(cs) == forall|c: int| 0 <= c < cs.len() ==> #[trigger] all_nop_free(cs[c].1),
    decreases cs.len(),
{
    if cs.len() > 0 {
        lemma_cases_nop_free(cs.drop_last());
        lemma_ops_nop_free(cs.last().1);
        if cases_nop_free(cs) {
            assert forall|c: int| 0 <= c < cs.len() implies #[trigger] all_nop_free(cs[c].1) by {
                if c < cs.len() - 1 {
                    assert(cs.drop_last()[c] == cs[c]);
                    assert(all_nop_free(cs.drop_last()[c].1));
                }
            }
        }
        if forall|c: int| 0 <= c < cs.len() ==> #[trigger] all_nop_free(cs[c].1) {
            assert(all_nop_free(cs[cs.len() - 1].1));
            assert forall|c: int| 0 <= c < cs.drop_last().len() implies #[trigger] all_nop_free(cs.drop_last()[c].1) by {
                assert(cs.drop_last()[c] == cs[c]);
                assert(all_nop_free(cs[c].1));
            }
        }
    }
}

/// [`nop_free`] one level down: the operation is no `Nop`, and the
/// sequences it holds hold no `Nop`.
pub open spec fn nop_free_shallow(op: OpModel) -> bool {
    match op {
        OpModel::Nop => false,
        OpModel::Def { body, .. } => all_nop_free(body),
        OpModel::If { condition, then, else_ } => {
            &&& all_nop_free(condition)
            &&& all_nop_free(then)
            &&& (else_ matches Some(e) ==> all_nop_free(e))
        },
        OpModel::Loop { body, .. } => all_nop_free(body),
        OpModel::While { condition, body } => all_nop_free(condition) && all_nop_free(body),
        OpModel::Match { value, cases, default } => {
            &&& all_nop_free(value)
            &&& forall|c: int| 0 <= c < cases.len() ==> #[trigger] all_nop_free(cases[c].1)
            &&& (default matches Some(d) ==> all_nop_free(d))
        },
        OpModel::IfPassed(b) => all_nop_free(b),
        OpModel::Else(b) => all_nop_free(b),
        _ => true,
    }
}

pub proof fn lemma_nop_free_unfold(op: OpModel)
    ensures
        nop_free(op) == nop_free_shallow(op),
{
    match op {
        OpModel::Def { body, .. } => lemma_ops_nop_free(body),
        OpModel::If { condition, then, else_ } => {
            lemma_ops_nop_free(condition);
            lemma_ops_nop_free(then);
            if let Some(e) = else_ {
                lemma_ops_nop_free(e);
            }
        },
        OpModel::Loop { body, .. } => lemma_ops_nop_free(body),
        OpModel::While { condition, body } => {
            lemma_ops_nop_free(condition);
            lemma_ops_nop_free(body);
        },
        OpModel::Match { value, cases, default } => {
            lemma_ops_nop_free(value);
            lemma_cases_nop_free(cases);
            if let Some(d) = default {
                lemma_ops_nop_free(d);
            }
        },
        OpModel::IfPassed(b) => lemma_ops_nop_free(b),
        OpModel::Else(b) => lemma_ops_nop_free(b),
        _ => {},
    }
}

pub proof fn lemma_ops_model_push(s: Seq<Op>, op: Op)
    ensures
        ops_model(s.push(op)) == ops_model(s).push(op_model(op)),
{
    assert(ops_model(s.push(op)) =~= ops_model(s).push(op_model(op)));
}

pub proof fn lemma_ops_model_empty()
    ensures
        ops_model(Seq::<Op>::empty()) == Seq::<OpModel>::empty(),
{
    assert(ops_model(Seq::<Op>::empty()) =~= Seq::<OpModel>::empty());
}

pub proof fn lemma_strings_model_push(s: Seq<String>, x: String)
    ensures
        strings_model(s.push(x)) == strings_model(s).push(x@),
{
    assert(strings_model(s.push(x)) =~= strings_model(s).push(x@));
}

impl Op {
    /// Whether this is the no-op, which the compiler leaves out of its output.
    pub fn is_nop(&self) -> (r: bool)
        ensures
            r == (op_model(*self) is Nop),
    {
        match self {
            Op::Nop => true,
            _ => false,
        }
    }
}

/// Appends `op` to `v` unless it is a no-op.
pub fn push_unless_nop(v: &mut Vec<Op>, op: Op)
    ensures
        ops_model(final(v)@) == push_op(ops_model(old(v)@), op_model(op)),
{
    if !op.is_nop() {
        v.push(op);
        proof {
            lemma_ops_model_push(old(v)@, op);
        }
    }
}

} // verus!
