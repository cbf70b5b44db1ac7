//! Blank lines and comments parse to `Nop`, and every block drops them: no
//! program the compiler accepts holds a `Nop`, at any depth.

use vstd::prelude::*;
use crate::compiler::grammar::{
    match_add, sp_block, sp_def, sp_if, sp_line, sp_loop, sp_match, sp_match_items, sp_nested,
    sp_program, sp_stmt, sp_while, sp_while_items, while_op, block_kind, nested_kind, BlockKind,
    MatchAcc, Outcome, WhileAcc, mk_pos,
};
use crate::compiler::SourcePosition;
use crate::ops::{all_nop_free, lemma_nop_free_unfold, nop_free, push_op, OpModel};
use crate::text::{ends_with, indent_of, trim};

verus! {

/// What a `while` block has gathered holds no `Nop`.
pub open spec fn while_acc_ok(acc: WhileAcc) -> bool {
    &&& all_nop_free(acc.body)
    &&& (acc.condition matches Some(c) ==> all_nop_free(c))
}

/// What a `match` block has gathered holds no `Nop`.
pub open spec fn match_acc_ok(acc: MatchAcc) -> bool {
    &&& all_nop_free(acc.value)
    &&& forall|c: int| 0 <= c < acc.cases.len() ==> #[trigger] all_nop_free(acc.cases[c].1)
    &&& (acc.default matches Some(d) ==> all_nop_free(d))
}

proof fn lemma_push_op(acc: Seq<OpModel>, op: OpModel)
    requires
        all_nop_free(acc),
        op is Nop || nop_free(op),
    ensures
        all_nop_free(push_op(acc, op)),
{
    if !(op is Nop) {
        assert forall|k: int| 0 <= k < acc.push(op).len() implies #[trigger] nop_free(acc.push(op)[k]) by {
            if k < acc.len() {
                assert(acc.push(op)[k] == acc[k]);
            }
        }
    }
}

proof fn lemma_line(l: Seq<char>, pos: SourcePosition)
    ensures
        sp_line(l, pos) matches Outcome::Done(op) ==> (op is Nop || nop_free(op)),
{
}

proof fn lemma_block(ls: Seq<Seq<char>>, i: int, base: int, pos: SourcePosition, acc: Seq<OpModel>)
    requires
        all_nop_free(acc),
    ensures
        sp_block(ls, i, base, pos, acc) matches Outcome::Done((ops, _)) ==> all_nop_free(ops),
    decreases ls.len() - i, 4int,
{
    if 0 <= i < ls.len() {
        let l = ls[i];
        let ind = indent_of(l);
        let t = trim(l);
        if t.len() != 0 && ind <= base {
        } else if t.len() == 0 {
            lemma_block(ls, i + 1, base, pos, acc);
        } else {
            match mk_pos(pos.line + i, ind + 1) {
                None => {},
                Some(cur) => if ends_with(t, ":"@) {
                    lemma_stmt(ls, i, cur, t);
                    match sp_stmt(ls, i, cur, t) {
                        Outcome::Done((op, j)) => if i < j <= ls.len() {
                            lemma_push_op(acc, op);
                            lemma_block(ls, j, base, pos, push_op(acc, op));
                        },
                        _ => {},
                    }
                } else {
                    lemma_line(l, cur);
                    match sp_line(l, cur) {
                        Outcome::Done(op) => {
                            lemma_push_op(acc, op);
                            lemma_block(ls, i + 1, base, pos, push_op(acc, op));
                        },
                        _ => {},
                    }
                },
            }
        }
    }
}

proof fn lemma_stmt(ls: Seq<Seq<char>>, i: int, pos: SourcePosition, t: Seq<char>)
    ensures
        sp_stmt(ls, i, pos, t) matches Outcome::Done((op, _)) ==> nop_free(op),
    decreases ls.len() - i, 2int,
{
    match block_kind(t) {
        BlockKind::If => lemma_if(ls, i, pos),
        BlockKind::While => lemma_while(ls, i, pos),
        BlockKind::Def => lemma_def(ls, i, pos),
        BlockKind::Match => lemma_match(ls, i, pos),
        BlockKind::Loop => lemma_loop(ls, i, pos),
        BlockKind::Unknown => {},
    }
}

proof fn lemma_nested(ls: Seq<Seq<char>>, i: int, pos: SourcePosition, t: Seq<char>)
    ensures
        sp_nested(ls, i, pos, t) matches Outcome::Done((op, _)) ==> nop_free(op),
    decreases ls.len() - i, 2int,
{
    match nested_kind(t) {
        BlockKind::If => lemma_if(ls, i, pos),
        BlockKind::While => lemma_while(ls, i, pos),
        BlockKind::Loop => lemma_loop(ls, i, pos),
        BlockKind::Match => lemma_match(ls, i, pos),
        _ => {},
    }
}

proof fn lemma_if(ls: Seq<Seq<char>>, i: int, pos: SourcePosition)
    ensures
        sp_if(ls, i, pos) matches Outcome::Done((op, _)) ==> nop_free(op),
    decreases ls.len() - i, 1int,
{
    if let Outcome::Done((op, _)) = sp_if(ls, i, pos) {
        lemma_nop_free_unfold(op);
    }
    if 0 <= i < ls.len() {
        let ind = indent_of(ls[i]);
        lemma_block(ls, i + 1, ind, pos, seq![]);
        match sp_block(ls, i + 1, ind, pos, seq![]) {
            Outcome::Done((then, j)) => {
                if i < j < ls.len() && trim(ls[j]) == "else:"@ {
                    match mk_pos(pos.line + j, indent_of(ls[j]) + 1) {
                        None => {},
                        Some(ep) => {
                            lemma_block(ls, j + 1, ind, ep, seq![]);
                        },
                    }
                }
            },
            _ => {},
        }
    }
}

proof fn lemma_def(ls: Seq<Seq<char>>, i: int, pos: SourcePosition)
    ensures
        sp_def(ls, i, pos) matches Outcome::Done((op, _)) ==> nop_free(op),
    decreases ls.len() - i, 1int,
{
    if let Outcome::Done((op, _)) = sp_def(ls, i, pos) {
        lemma_nop_free_unfold(op);
    }
    if 0 <= i < ls.len() {
        lemma_block(ls, i + 1, indent_of(ls[i]), pos, seq![]);
    }
}

proof fn lemma_loop(ls: Seq<Seq<char>>, i: int, pos: SourcePosition)
    ensures
        sp_loop(ls, i, pos) matches Outcome::Done((op, _)) ==> nop_free(op),
    decreases ls.len() - i, 1int,
{
    if let Outcome::Done((op, _)) = sp_loop(ls, i, pos) {
        lemma_nop_free_unfold(op);
    }
    if 0 <= i < ls.len() {
        lemma_block(ls, i + 1, indent_of(ls[i]), pos, seq![]);
    }
}

proof fn lemma_while_op(acc: WhileAcc)
    requires
        while_acc_ok(acc),
    ensures
        nop_free(while_op(acc)),
{
    lemma_nop_free_unfold(while_op(acc));
    match acc.condition {
        Some(c) => {},
        None => if acc.body.len() > 0 {
            let b = acc.body;
            assert(nop_free(b[0]));
            assert(nop_free(seq![b[0]][0]));
            assert forall|k: int| 0 <= k < b.skip(1).len() implies #[trigger] nop_free(b.skip(1)[k]) by {
                assert(b.skip(1)[k] == b[k + 1]);
            }
        },
    }
}

proof fn lemma_while(ls: Seq<Seq<char>>, i: int, pos: SourcePosition)
    ensures
        sp_while(ls, i, pos) matches Outcome::Done((op, _)) ==> nop_free(op),
    decreases ls.len() - i, 1int,
{
    if 0 <= i < ls.len() {
        let ind = indent_of(ls[i]);
        let acc = WhileAcc { condition: None, body: seq![] };
        lemma_while_items(ls, i + 1, ind, pos, acc);
        match sp_while_items(ls, i + 1, ind, pos, acc) {
            Outcome::Done((a, _)) => lemma_while_op(a),
            _ => {},
        }
    }
}

proof fn lemma_while_items(ls: Seq<Seq<char>>, k: int, ind: int, pos: SourcePosition, acc: WhileAcc)
    requires
        while_acc_ok(acc),
    ensures
        sp_while_items(ls, k, ind, pos, acc) matches Outcome::Done((a, _)) ==> while_acc_ok(a),
    decreases ls.len() - k, 3int,
{
    if 0 <= k < ls.len() {
        let l = ls[k];
        let ik = indent_of(l);
        if ik > ind {
            let t = trim(l);
            match mk_pos(pos.line + k, ik + 1) {
                None => {},
                Some(p) => if t == "condition:"@ {
                    lemma_block(ls, k + 1, ik, p, seq![]);
                    match sp_block(ls, k + 1, ik, p, seq![]) {
                        Outcome::Done((c, j)) => if k < j <= ls.len() {
                            lemma_while_items(ls, j, ind, pos, WhileAcc { condition: Some(c), body: acc.body });
                        },
                        _ => {},
                    }
                } else if ends_with(t, ":"@) {
                    lemma_nested(ls, k, p, t);
                    match sp_nested(ls, k, p, t) {
                        Outcome::Done((op, j)) => if k < j <= ls.len() {
                            lemma_push_op(acc.body, op);
                            assert(push_op(acc.body, op) == acc.body.push(op));
                            lemma_while_items(
                                ls,
                                j,
                                ind,
                                pos,
                                WhileAcc { condition: acc.condition, body: acc.body.push(op) },
                            );
                        },
                        _ => {},
                    }
                } else {
                    lemma_line(l, p);
                    match sp_line(l, p) {
                        Outcome::Done(op) => {
                            lemma_push_op(acc.body, op);
                            lemma_while_items(
                                ls,
                                k + 1,
                                ind,
                                pos,
                                WhileAcc { condition: acc.condition, body: push_op(acc.body, op) },
                            );
                        },
                        _ => {},
                    }
                },
            }
        }
    }
}

proof fn lemma_match_add(acc: MatchAcc, t: Seq<char>, ops: Seq<OpModel>)
    requires
        match_acc_ok(acc),
        all_nop_free(ops),
    ensures
        match_acc_ok(match_add(acc, t, ops)),
{
    let r = match_add(acc, t, ops);
    assert forall|c: int| 0 <= c < r.cases.len() implies #[trigger] all_nop_free(r.cases[c].1) by {
        if c < acc.cases.len() {
            assert(r.cases[c] == acc.cases[c]);
        }
    }
}

proof fn lemma_match(ls: Seq<Seq<char>>, i: int, pos: SourcePosition)
    ensures
        sp_match(ls, i, pos) matches Outcome::Done((op, _)) ==> nop_free(op),
    decreases ls.len() - i, 1int,
{
    if let Outcome::Done((op, _)) = sp_match(ls, i, pos) {
        lemma_nop_free_unfold(op);
    }
    if 0 <= i < ls.len() {
        let ind = indent_of(ls[i]);
        let acc = MatchAcc { value: seq![], cases: seq![], default: None };
        lemma_match_items(ls, i + 1, ind, pos, acc);
        match sp_match_items(ls, i + 1, ind, pos, acc) {
            Outcome::Done((a, _)) => {
                assert forall|c: int, k: int|
                    0 <= c < a.cases.len() && 0 <= k < a.cases[c].1.len() implies #[trigger] nop_free(
                    a.cases[c].1[k],
                ) by {
                    assert(all_nop_free(a.cases[c].1));
                }
            },
            _ => {},
        }
    }
}

proof fn lemma_match_items(ls: Seq<Seq<char>>, k: int, ind: int, pos: SourcePosition, acc: MatchAcc)
    requires
        match_acc_ok(acc),
    ensures
        sp_match_items(ls, k, ind, pos, acc) matches Outcome::Done((a, _)) ==> match_acc_ok(a),
    decreases ls.len() - k, 3int,
{
    if 0 <= k < ls.len() {
        let l = ls[k];
        let ik = indent_of(l);
        if ik > ind {
            let t = trim(l);
            match mk_pos(pos.line + k, ik + 1) {
                None => {},
                Some(lp) => {
                    match mk_pos(lp.line + 1, ik + 1) {
                        None => {},
                        Some(bp) => {
                            lemma_block(ls, k + 1, ik, bp, seq![]);
                            match sp_block(ls, k + 1, ik, bp, seq![]) {
                                Outcome::Done((ops, j)) => if k < j <= ls.len() {
                                    lemma_match_add(acc, t, ops);
                                    lemma_match_items(ls, j, ind, pos, match_add(acc, t, ops));
                                },
                                _ => {},
                            }
                        },
                    }
                    lemma_line(l, lp);
                    match sp_line(l, lp) {
                        Outcome::Done(op) => {
                            lemma_push_op(acc.value, op);
                            let next = MatchAcc { value: push_op(acc.value, op), cases: acc.cases, default: acc.default };
                            lemma_match_items(ls, k + 1, ind, pos, next);
                        },
                        _ => {},
                    }
                },
            }
        }
    }
}

proof fn lemma_program(ls: Seq<Seq<char>>, i: int, acc: Seq<OpModel>)
    requires
        all_nop_free(acc),
    ensures
        sp_program(ls, i, acc) matches Outcome::Done(ops) ==> all_nop_free(ops),
    decreases ls.len() + 1 - i, 4int,
{
    if 0 <= i < ls.len() {
        let l = ls[i];
        let t = trim(l);
        if t.len() == 0 {
            lemma_program(ls, i + 1, acc);
        } else {
            match mk_pos(i + 1, indent_of(l) + 1) {
                None => {},
                Some(pos) => if ends_with(t, ":"@) {
                    lemma_stmt(ls, i, pos, t);
                    match sp_stmt(ls, i, pos, t) {
                        Outcome::Done((op, j)) => if i < j <= ls.len() {
                            lemma_push_op(acc, op);
                            lemma_program(ls, j, push_op(acc, op));
                        },
                        _ => {},
                    }
                } else {
                    lemma_line(l, pos);
                    match sp_line(l, pos) {
                        Outcome::Done(op) => {
                            lemma_push_op(acc, op);
                            lemma_program(ls, i + 1, push_op(acc, op));
                        },
                        _ => {},
                    }
                },
            }
        }
    }
}

/// No program the compiler accepts holds a `Nop`, at any depth: blank
/// lines and comments vanish from every block.
pub proof fn lemma_parsed_program_has_no_nops(ls: Seq<Seq<char>>)
    ensures
        sp_program(ls, 0, seq![]) matches Outcome::Done(ops) ==> all_nop_free(ops),
{
    lemma_program(ls, 0, seq![]);
}

} // verus!
