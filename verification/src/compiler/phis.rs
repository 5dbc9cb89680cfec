//! The phis that lowering writes name real predecessors: every incoming
//! label of a phi is the name of a block whose terminator branches to the
//! phi's block.
use vstd::prelude::*;
use crate::compiler::ast::{ExprV, StmtV, UnaryOp, Type, FunctionV as AstFunctionV, ProgramV};
use crate::compiler::ir::{BasicBlockV, InstrV, TerminatorV, FunctionV};
use crate::compiler::codegen::{
    BuilderV, b_temp, b_label, b_new_block, b_set_current, b_push, b_set_term, b_scope, s_emit, s_emit_args,
    s_emit_let, s_emit_stmt, s_emit_stmts, s_binary_instr, s_type_of, s_initial_state, s_lower_function,
    slot_text, needs_slot, s_make_slot, s_bind, typed_call_args, lookup_slot, s_lower_functions, spec_lower,
};
use crate::compiler::sema::{FunSigV, lookup_type, lookup_fun, program_sigs};

verus! {

/// Whether terminator `t` may jump to the block named `target`.
pub open spec fn branches_to(t: TerminatorV, target: Seq<char>) -> bool {
    match t {
        TerminatorV::Ret { .. } => false,
        TerminatorV::Br { dest } => dest == target,
        TerminatorV::CondBr { then_dest, else_dest, .. } => then_dest == target || else_dest == target,
    }
}

/// Block `j` is named `lbl`, branches to `target`, and is neither the block
/// under construction nor one of the blocks `r` still to be filled.
pub open spec fn pred_at(blocks: Seq<BasicBlockV>, cur: int, r: Set<int>, target: Seq<char>, lbl: Seq<char>, j: int) -> bool {
    &&& 0 <= j < blocks.len()
    &&& j != cur
    &&& !r.contains(j)
    &&& blocks[j].name == lbl
    &&& branches_to(blocks[j].term, target)
}

pub open spec fn incoming_ok(blocks: Seq<BasicBlockV>, cur: int, r: Set<int>, target: Seq<char>, lbl: Seq<char>) -> bool {
    exists|j: int| #[trigger] pred_at(blocks, cur, r, target, lbl, j)
}

/// Every incoming label of every phi names a finished predecessor of the
/// phi's block.
pub open spec fn phis_sound(blocks: Seq<BasicBlockV>, cur: int, r: Set<int>) -> bool {
    forall|k: int, x: InstrV, m: int|
        #![trigger blocks[k].instrs.contains(x), x->Phi_incomings[m]]
        0 <= k < blocks.len() && blocks[k].instrs.contains(x) && x is Phi && 0 <= m < x->Phi_incomings.len()
            ==> incoming_ok(blocks, cur, r, blocks[k].name, x->Phi_incomings[m].1)
}

/// A lowering state from which to go on: `r` holds blocks made for later.
pub open spec fn pre_ok(st: BuilderV, r: Set<int>) -> bool {
    &&& 0 <= st.current < st.blocks.len()
    &&& !r.contains(st.current)
    &&& forall|j: int| r.contains(j) ==> 0 <= j < st.blocks.len()
    &&& phis_sound(st.blocks, st.current, r)
}

/// A step of lowering from `st` to `st2`: blocks are only added; the names
/// of the blocks there were, and the terminators of all but the current
/// one, stay; the new current block is the old one or a new one.
pub open spec fn step_ok(st: BuilderV, st2: BuilderV, r: Set<int>) -> bool {
    &&& 0 <= st2.current < st2.blocks.len()
    &&& st2.blocks.len() >= st.blocks.len()
    &&& (st2.current == st.current || st2.current >= st.blocks.len())
    &&& forall|j: int| #![trigger st2.blocks[j]] 0 <= j < st.blocks.len() ==> st2.blocks[j].name == st.blocks[j].name
    &&& forall|j: int| #![trigger st2.blocks[j]] 0 <= j < st.blocks.len() && j != st.current
        ==> st2.blocks[j].term == st.blocks[j].term
    &&& phis_sound(st2.blocks, st2.current, r)
}

proof fn lemma_frame(b1: Seq<BasicBlockV>, c1: int, r1: Set<int>, b2: Seq<BasicBlockV>, c2: int, r2: Set<int>)
    requires
        phis_sound(b1, c1, r1),
        b1.len() <= b2.len(),
        forall|j: int| #![trigger b2[j]] 0 <= j < b1.len() ==> b2[j].name == b1[j].name,
        forall|j: int| #![trigger b2[j]] 0 <= j < b1.len() && j != c1 && !r1.contains(j)
            ==> b2[j].term == b1[j].term && j != c2 && !r2.contains(j),
        forall|k: int, x: InstrV| #![trigger b2[k].instrs.contains(x)]
            0 <= k < b2.len() && b2[k].instrs.contains(x) && x is Phi ==> k < b1.len() && b1[k].instrs.contains(x),
    ensures
        phis_sound(b2, c2, r2),
{
    assert forall|k: int, x: InstrV, m: int|
        #![trigger b2[k].instrs.contains(x), x->Phi_incomings[m]]
        0 <= k < b2.len() && b2[k].instrs.contains(x) && x is Phi && 0 <= m < x->Phi_incomings.len()
        implies incoming_ok(b2, c2, r2, b2[k].name, x->Phi_incomings[m].1) by {
        assert(b1[k].instrs.contains(x));
        let lbl = x->Phi_incomings[m].1;
        assert(incoming_ok(b1, c1, r1, b1[k].name, lbl));
        let j = choose|j: int| #[trigger] pred_at(b1, c1, r1, b1[k].name, lbl, j);
        assert(b2[j].name == b1[j].name);
        assert(pred_at(b2, c2, r2, b2[k].name, lbl, j));
    }
}

proof fn lemma_step_pre(st: BuilderV, st2: BuilderV, r: Set<int>)
    requires
        pre_ok(st, r),
        step_ok(st, st2, r),
    ensures
        pre_ok(st2, r),
{
}

proof fn lemma_step_trans(st: BuilderV, st1: BuilderV, st2: BuilderV, r: Set<int>)
    requires
        pre_ok(st, r),
        step_ok(st, st1, r),
        step_ok(st1, st2, r),
    ensures
        step_ok(st, st2, r),
{
    assert forall|j: int| #![trigger st2.blocks[j]] 0 <= j < st.blocks.len() implies st2.blocks[j].name == st.blocks[j].name by {
        assert(st1.blocks[j].name == st.blocks[j].name);
    }
    assert forall|j: int| #![trigger st2.blocks[j]] 0 <= j < st.blocks.len() && j != st.current
        implies st2.blocks[j].term == st.blocks[j].term by {
        assert(st1.blocks[j].term == st.blocks[j].term);
    }
}

proof fn lemma_step_same(st: BuilderV, st2: BuilderV, r: Set<int>)
    requires
        pre_ok(st, r),
        st2.blocks == st.blocks,
        st2.current == st.current,
    ensures
        step_ok(st, st2, r),
{
}

/// Appending an instruction other than a phi to the current block.
proof fn lemma_push(st: BuilderV, i: InstrV, r: Set<int>)
    requires
        pre_ok(st, r),
        !(i is Phi),
    ensures
        step_ok(st, b_push(st, i), r),
{
    let st2 = b_push(st, i);
    assert forall|k: int, x: InstrV| #![trigger st2.blocks[k].instrs.contains(x)]
        0 <= k < st2.blocks.len() && st2.blocks[k].instrs.contains(x) && x is Phi
        implies k < st.blocks.len() && st.blocks[k].instrs.contains(x) by {
        if k == st.current {
            let j = choose|j: int| 0 <= j < st2.blocks[k].instrs.len() && st2.blocks[k].instrs[j] == x;
            assert(st.blocks[k].instrs[j] == x);
        }
    }
    lemma_frame(st.blocks, st.current, r, st2.blocks, st.current, r);
}

/// Replacing the current block's terminator.
proof fn lemma_term(st: BuilderV, t: TerminatorV, r: Set<int>)
    requires
        pre_ok(st, r),
    ensures
        step_ok(st, b_set_term(st, t), r),
        b_set_term(st, t).blocks[st.current].term == t,
{
    let st2 = b_set_term(st, t);
    assert forall|k: int, x: InstrV| #![trigger st2.blocks[k].instrs.contains(x)]
        0 <= k < st2.blocks.len() && st2.blocks[k].instrs.contains(x) && x is Phi
        implies k < st.blocks.len() && st.blocks[k].instrs.contains(x) by {
        assert(st2.blocks[k].instrs == st.blocks[k].instrs);
    }
    lemma_frame(st.blocks, st.current, r, st2.blocks, st.current, r);
}

/// Lowering an expression is a step that keeps every phi sound.
proof fn p_emit(funs: Seq<FunSigV>, st: BuilderV, e: ExprV, r: Set<int>)
    requires
        pre_ok(st, r),
    ensures
        s_emit(funs, st, e) matches Ok((st2, v)) ==> step_ok(st, st2, r),
    decreases e, 1int,
{
    match e {
        ExprV::Int(_) => { lemma_step_same(st, st, r); },
        ExprV::Bool(_) => { lemma_step_same(st, st, r); },
        ExprV::Ident(n) => {
            match lookup_slot(st.scope, n) {
                Some(ptr) => {
                    let (st1, d) = b_temp(st);
                    match lookup_type(st.locals_ty, n) {
                        None => {},
                        Some(ty) => {
                            lemma_push(st1, InstrV::Load { dest: d, ty, ptr }, r);
                        },
                    }
                },
                None => { lemma_step_same(st, st, r); },
            }
        },
        ExprV::Binary { op, lhs, rhs } => {
            p_emit(funs, st, *lhs, r);
            if let Ok((st1, l)) = s_emit(funs, st, *lhs) {
                lemma_step_pre(st, st1, r);
                p_emit(funs, st1, *rhs, r);
                if let Ok((st2, rv)) = s_emit(funs, st1, *rhs) {
                    lemma_step_trans(st, st1, st2, r);
                    lemma_step_pre(st, st2, r);
                    let (st3, d) = b_temp(st2);
                    if let Ok(i) = s_binary_instr(op, d, l, rv, *lhs, st3.locals_ty, funs) {
                        lemma_push(st3, i, r);
                        lemma_step_trans(st, st2, b_push(st3, i), r);
                    }
                }
            }
        },
        ExprV::Unary { op, expr } => {
            p_emit(funs, st, *expr, r);
            if let Ok((st1, v)) = s_emit(funs, st, *expr) {
                lemma_step_pre(st, st1, r);
                let (st2, d) = b_temp(st1);
                let i = match op {
                    UnaryOp::Neg => InstrV::Sub { dest: d, lhs: "0"@, rhs: v },
                    UnaryOp::Not => InstrV::Xor { dest: d, lhs: v, rhs: "true"@ },
                };
                lemma_push(st2, i, r);
                lemma_step_trans(st, st1, b_push(st2, i), r);
            }
        },
        ExprV::Call { name, args } => {
            p_args(funs, st, args, r);
            if let Ok((st1, vals)) = s_emit_args(funs, st, args) {
                lemma_step_pre(st, st1, r);
                let (st2, d) = b_temp(st1);
                let sig = lookup_fun(funs, name);
                let ret_ty = match sig { Some(sg) => sg.ret, None => Type::I32 };
                let ptys = match sig { Some(sg) => sg.params, None => seq![] };
                let i = InstrV::Call { dest: Some(d), ret_ty, func: name, args: typed_call_args(ptys, vals) };
                lemma_push(st2, i, r);
                lemma_step_trans(st, st1, b_push(st2, i), r);
            }
        },
        ExprV::If { .. } => {
            p_emit_if(funs, st, e, r);
        },
        ExprV::While { .. } => {
            p_emit_while(funs, st, e, r);
        },
        ExprV::Block { stmts, expr } => {
            p_stmts(funs, st, stmts, r);
            if let Ok(st1) = s_emit_stmts(funs, st, stmts) {
                lemma_step_pre(st, st1, r);
                p_emit(funs, st1, *expr, r);
                if let Ok((st2, v)) = s_emit(funs, st1, *expr) {
                    lemma_step_trans(st, st1, st2, r);
                    lemma_step_pre(st, st2, r);
                    lemma_step_same(st2, b_scope(st2, st.scope, st.locals_ty), r);
                    lemma_step_trans(st, st2, b_scope(st2, st.scope, st.locals_ty), r);
                }
            }
        },
    }
}

#[verifier::spinoff_prover]
#[verifier::rlimit(100)]
proof fn p_emit_if(funs: Seq<FunSigV>, st: BuilderV, e: ExprV, r: Set<int>)
    requires
        pre_ok(st, r),
        e is If,
    ensures
        s_emit(funs, st, e) matches Ok((st2, v)) ==> step_ok(st, st2, r),
    decreases e, 0int,
{
    reveal_strlit("then");
    reveal_strlit("else");
    reveal_strlit("merge");
    if let ExprV::If { cond, then_expr, else_expr } = e {
        p_emit(funs, st, *cond, r);
        if let Ok((st1, c)) = s_emit(funs, st, *cond) {
            lemma_step_pre(st, st1, r);
            let (st2, tn) = b_label(st1, "then"@);
            let (st3, en) = b_label(st2, "else"@);
            let (st4, mn) = b_label(st3, "merge"@);
            let ti = st4.blocks.len() as int;
            let st5 = b_new_block(st4, tn);
            let ei = st5.blocks.len() as int;
            let st6 = b_new_block(st5, en);
            let mi = st6.blocks.len() as int;
            let st7 = b_new_block(st6, mn);
            let st8 = b_set_term(st7, TerminatorV::CondBr { cond: c, then_dest: tn, else_dest: en });
            let s8 = b_set_current(st8, ti);
            let n1 = st1.blocks.len() as int;
            let r1 = r.insert(ei).insert(mi);
            assert(st8.blocks.len() == n1 + 3);
            assert(st8.blocks[ti].name == tn && st8.blocks[ei].name == en && st8.blocks[mi].name == mn);
            assert forall|k: int, x: InstrV| #![trigger st8.blocks[k].instrs.contains(x)]
                0 <= k < st8.blocks.len() && st8.blocks[k].instrs.contains(x) && x is Phi
                implies k < n1 && st1.blocks[k].instrs.contains(x) by {
                if k >= n1 {
                    assert(st8.blocks[k].instrs.len() == 0);
                } else {
                    assert(st8.blocks[k].instrs == st1.blocks[k].instrs);
                }
            }
            assert forall|j: int| #![trigger st8.blocks[j]] 0 <= j < n1 implies st8.blocks[j].name == st1.blocks[j].name
                && (j != st1.current ==> st8.blocks[j].term == st1.blocks[j].term) by {
                assert(st7.blocks[j] == st1.blocks[j]);
            }
            lemma_frame(st1.blocks, st1.current, r, st8.blocks, ti, r1);
            assert(pre_ok(s8, r1));
            p_emit(funs, s8, *then_expr, r1);
            if let Ok((st9, tv)) = s_emit(funs, s8, *then_expr) {
                lemma_step_pre(s8, st9, r1);
                let j9 = st9.current;
                let s9t = b_set_term(st9, TerminatorV::Br { dest: mn });
                lemma_term(st9, TerminatorV::Br { dest: mn }, r1);
                let st10 = b_set_current(s9t, ei);
                let r2 = r.insert(mi);
                lemma_frame(s9t.blocks, j9, r1, st10.blocks, ei, r2);
                assert(pre_ok(st10, r2));
                p_emit(funs, st10, *else_expr, r2);
                if let Ok((st11, ev)) = s_emit(funs, st10, *else_expr) {
                    lemma_step_pre(st10, st11, r2);
                    let j11 = st11.current;
                    let s11t = b_set_term(st11, TerminatorV::Br { dest: mn });
                    lemma_term(st11, TerminatorV::Br { dest: mn }, r2);
                    let st12 = b_set_current(s11t, mi);
                    lemma_frame(s11t.blocks, j11, r2, st12.blocks, mi, r);
                    let (st13, d) = b_temp(st12);
                    if let Ok(pty) = s_type_of(*then_expr, st13.locals_ty, funs) {
                        let incs = seq![(tv, st9.blocks[j9].name), (ev, st11.blocks[j11].name)];
                        let phi = InstrV::Phi { dest: d, ty: pty, incomings: incs };
                        // the block the then branch ends in
                        assert(j9 < st10.blocks.len() && j9 != ei);
                        assert(st11.blocks[j9].term == st10.blocks[j9].term);
                        assert(j9 != j11);
                        assert(st13.blocks[j9].term == TerminatorV::Br { dest: mn });
                        assert(st13.blocks[j9].name == st9.blocks[j9].name);
                        assert(st11.blocks[mi].name == st10.blocks[mi].name);
                        assert(st13.blocks[mi].name == mn);
                        assert(pred_at(st13.blocks, mi, r, mn, st9.blocks[j9].name, j9));
                        // the block the else branch ends in
                        assert(st13.blocks[j11].term == TerminatorV::Br { dest: mn });
                        assert(pred_at(st13.blocks, mi, r, mn, st11.blocks[j11].name, j11));
                        lemma_push_phi(st13, phi, r);
                        let fin = b_push(st13, phi);
                        // the whole step
                        assert forall|j: int| #![trigger fin.blocks[j]] 0 <= j < st.blocks.len()
                            implies fin.blocks[j].name == st.blocks[j].name by {
                            assert(st1.blocks[j].name == st.blocks[j].name);
                            assert(st9.blocks[j].name == s8.blocks[j].name);
                            assert(st11.blocks[j].name == st10.blocks[j].name);
                        }
                        assert forall|j: int| #![trigger fin.blocks[j]] 0 <= j < st.blocks.len() && j != st.current
                            implies fin.blocks[j].term == st.blocks[j].term by {
                            assert(st1.blocks[j].term == st.blocks[j].term);
                            assert(j != st1.current);
                            assert(st9.blocks[j].term == s8.blocks[j].term);
                            assert(j != j9);
                            assert(st11.blocks[j].term == st10.blocks[j].term);
                            assert(j != j11);
                        }
                        assert(step_ok(st, fin, r));
                    }
                }
            }
        }
    }
}

#[verifier::spinoff_prover]
#[verifier::rlimit(100)]
proof fn p_emit_while(funs: Seq<FunSigV>, st: BuilderV, e: ExprV, r: Set<int>)
    requires
        pre_ok(st, r),
        e is While,
    ensures
        s_emit(funs, st, e) matches Ok((st2, v)) ==> step_ok(st, st2, r),
    decreases e, 0int,
{
    reveal_strlit("cond");
    reveal_strlit("body");
    reveal_strlit("exit");
    if let ExprV::While { cond, body } = e {
        let (st1, cn) = b_label(st, "cond"@);
        let (st2, bn) = b_label(st1, "body"@);
        let (st3, xn) = b_label(st2, "exit"@);
        let ci = st3.blocks.len() as int;
        let st4 = b_new_block(st3, cn);
        let bi = st4.blocks.len() as int;
        let st5 = b_new_block(st4, bn);
        let xi = st5.blocks.len() as int;
        let st6 = b_new_block(st5, xn);
        let s6t = b_set_term(st6, TerminatorV::Br { dest: cn });
        let st7 = b_set_current(s6t, ci);
        let n = st.blocks.len() as int;
        let r1 = r.insert(bi).insert(xi);
        assert(st7.blocks.len() == n + 3);
        assert forall|k: int, x: InstrV| #![trigger st7.blocks[k].instrs.contains(x)]
            0 <= k < st7.blocks.len() && st7.blocks[k].instrs.contains(x) && x is Phi
            implies k < n && st.blocks[k].instrs.contains(x) by {
            if k >= n {
                assert(st7.blocks[k].instrs.len() == 0);
            } else {
                assert(st7.blocks[k].instrs == st.blocks[k].instrs);
            }
        }
        assert forall|j: int| #![trigger st7.blocks[j]] 0 <= j < n implies st7.blocks[j].name == st.blocks[j].name
            && (j != st.current ==> st7.blocks[j].term == st.blocks[j].term) by {
            assert(st6.blocks[j] == st.blocks[j]);
        }
        lemma_frame(st.blocks, st.current, r, st7.blocks, ci, r1);
        assert(pre_ok(st7, r1));
        p_emit(funs, st7, *cond, r1);
        if let Ok((st8, c)) = s_emit(funs, st7, *cond) {
            lemma_step_pre(st7, st8, r1);
            let j8 = st8.current;
            let s8t = b_set_term(st8, TerminatorV::CondBr { cond: c, then_dest: bn, else_dest: xn });
            lemma_term(st8, TerminatorV::CondBr { cond: c, then_dest: bn, else_dest: xn }, r1);
            let st9 = b_set_current(s8t, bi);
            let r2 = r.insert(xi);
            lemma_frame(s8t.blocks, j8, r1, st9.blocks, bi, r2);
            assert(pre_ok(st9, r2));
            p_emit(funs, st9, *body, r2);
            if let Ok((st10, bv)) = s_emit(funs, st9, *body) {
                lemma_step_pre(st9, st10, r2);
                let j10 = st10.current;
                let s10t = b_set_term(st10, TerminatorV::Br { dest: cn });
                lemma_term(st10, TerminatorV::Br { dest: cn }, r2);
                let fin = b_set_current(s10t, xi);
                lemma_frame(s10t.blocks, j10, r2, fin.blocks, xi, r);
                assert forall|j: int| #![trigger fin.blocks[j]] 0 <= j < n
                    implies fin.blocks[j].name == st.blocks[j].name by {
                    assert(st8.blocks[j].name == st7.blocks[j].name);
                    assert(st10.blocks[j].name == st9.blocks[j].name);
                }
                assert forall|j: int| #![trigger fin.blocks[j]] 0 <= j < n && j != st.current
                    implies fin.blocks[j].term == st.blocks[j].term by {
                    assert(st8.blocks[j].term == st7.blocks[j].term);
                    assert(j != j8);
                    assert(st10.blocks[j].term == st9.blocks[j].term);
                    assert(j != j10);
                }
                assert(step_ok(st, fin, r));
            }
        }
    }
}

proof fn p_args(funs: Seq<FunSigV>, st: BuilderV, args: Seq<ExprV>, r: Set<int>)
    requires
        pre_ok(st, r),
    ensures
        s_emit_args(funs, st, args) matches Ok((st2, vs)) ==> step_ok(st, st2, r),
    decreases args, 1int,
{
    if args.len() == 0 {
        lemma_step_same(st, st, r);
    } else {
        p_emit(funs, st, args[0], r);
        if let Ok((st1, v)) = s_emit(funs, st, args[0]) {
            lemma_step_pre(st, st1, r);
            p_args(funs, st1, args.drop_first(), r);
            if let Ok((st2, vs)) = s_emit_args(funs, st1, args.drop_first()) {
                lemma_step_trans(st, st1, st2, r);
            }
        }
    }
}

#[verifier::spinoff_prover]
#[verifier::rlimit(100)]
proof fn p_let(funs: Seq<FunSigV>, st: BuilderV, name: Seq<char>, value: ExprV, r: Set<int>)
    requires
        pre_ok(st, r),
    ensures
        s_emit_let(funs, st, name, value) matches Ok(st2) ==> step_ok(st, st2, r),
    decreases value, 2int,
{
    if let Ok(vty) = s_type_of(value, st.locals_ty, funs) {
        p_emit(funs, st, value, r);
        if let Ok((st1, v)) = s_emit(funs, st, value) {
            lemma_step_pre(st, st1, r);
            let ptr = slot_text(st1.locals, st1.scope, name);
            let st2 = if needs_slot(st1.locals, st1.scope, name) {
                let sm = s_make_slot(st1, name, ptr, vty);
                let b0 = st1.blocks[0];
                assert forall|k: int, x: InstrV| #![trigger sm.blocks[k].instrs.contains(x)]
                    0 <= k < sm.blocks.len() && sm.blocks[k].instrs.contains(x) && x is Phi
                    implies k < st1.blocks.len() && st1.blocks[k].instrs.contains(x) by {
                    if k == 0 {
                        let i = choose|i: int| 0 <= i < sm.blocks[0].instrs.len() && sm.blocks[0].instrs[i] == x;
                        assert(i > 0);
                        assert(b0.instrs[i - 1] == x);
                    } else {
                        assert(sm.blocks[k] == st1.blocks[k]);
                    }
                }
                lemma_frame(st1.blocks, st1.current, r, sm.blocks, sm.current, r);
                assert(step_ok(st1, sm, r));
                lemma_step_trans(st, st1, sm, r);
                sm
            } else {
                st1
            };
            let st2 = s_bind(st2, name, ptr, vty);
            assert(step_ok(st, st2, r));
            lemma_step_pre(st, st2, r);
            lemma_push(st2, InstrV::Store { ty: vty, value: v, ptr }, r);
            lemma_step_trans(st, st2, b_push(st2, InstrV::Store { ty: vty, value: v, ptr }), r);
        }
    }
}

proof fn p_stmt(funs: Seq<FunSigV>, st: BuilderV, s: StmtV, r: Set<int>)
    requires
        pre_ok(st, r),
    ensures
        s_emit_stmt(funs, st, s) matches Ok(st2) ==> step_ok(st, st2, r),
    decreases s, 3int,
{
    match s {
        StmtV::Let { name, value, .. } => p_let(funs, st, name, value, r),
        StmtV::Expr(x) => p_emit(funs, st, x, r),
    }
}

proof fn p_stmts(funs: Seq<FunSigV>, st: BuilderV, ss: Seq<StmtV>, r: Set<int>)
    requires
        pre_ok(st, r),
    ensures
        s_emit_stmts(funs, st, ss) matches Ok(st2) ==> step_ok(st, st2, r),
    decreases ss, 1int,
{
    if ss.len() == 0 {
        lemma_step_same(st, st, r);
    } else {
        p_stmt(funs, st, ss[0], r);
        if let Ok(st1) = s_emit_stmt(funs, st, ss[0]) {
            lemma_step_pre(st, st1, r);
            p_stmts(funs, st1, ss.drop_first(), r);
            if let Ok(st2) = s_emit_stmts(funs, st1, ss.drop_first()) {
                lemma_step_trans(st, st1, st2, r);
            }
        }
    }
}

/// Appending a phi whose incomings all name finished predecessors of the
/// current block.
proof fn lemma_push_phi(st: BuilderV, phi: InstrV, r: Set<int>)
    requires
        pre_ok(st, r),
        phi is Phi,
        forall|m: int| #![trigger phi->Phi_incomings[m]] 0 <= m < phi->Phi_incomings.len()
            ==> incoming_ok(st.blocks, st.current, r, st.blocks[st.current].name, phi->Phi_incomings[m].1),
    ensures
        step_ok(st, b_push(st, phi), r),
{
    let st2 = b_push(st, phi);
    let b = st.blocks;
    let b2 = st2.blocks;
    let c = st.current;
    assert forall|k: int, x: InstrV, m: int|
        #![trigger b2[k].instrs.contains(x), x->Phi_incomings[m]]
        0 <= k < b2.len() && b2[k].instrs.contains(x) && x is Phi && 0 <= m < x->Phi_incomings.len()
        implies incoming_ok(b2, c, r, b2[k].name, x->Phi_incomings[m].1) by {
        let lbl = x->Phi_incomings[m].1;
        assert(b2[k].name == b[k].name);
        if k == c && x == phi {
            assert(incoming_ok(b, c, r, b[k].name, lbl));
        } else {
            if k == c {
                let i = choose|i: int| 0 <= i < b2[k].instrs.len() && b2[k].instrs[i] == x;
                assert(i < b[k].instrs.len());
                assert(b[k].instrs[i] == x);
            } else {
                assert(b2[k] == b[k]);
            }
            assert(b[k].instrs.contains(x));
            assert(incoming_ok(b, c, r, b[k].name, lbl));
        }
        let j = choose|j: int| #[trigger] pred_at(b, c, r, b[k].name, lbl, j);
        assert(b2[j].name == b[j].name && b2[j].term == b[j].term);
        assert(pred_at(b2, c, r, b2[k].name, lbl, j));
    }
}

/// One of the blocks is named `lbl` and branches to the block named `target`.
pub open spec fn has_pred(blocks: Seq<BasicBlockV>, target: Seq<char>, lbl: Seq<char>) -> bool {
    exists|j: int| 0 <= j < blocks.len() && blocks[j].name == lbl && #[trigger] branches_to(blocks[j].term, target)
}

/// Each incoming of each phi of the blocks names a block among them whose
/// terminator branches to the phi's block.
pub open spec fn phis_name_predecessors(blocks: Seq<BasicBlockV>) -> bool {
    forall|k: int, x: InstrV, m: int|
        #![trigger blocks[k].instrs.contains(x), x->Phi_incomings[m]]
        0 <= k < blocks.len() && blocks[k].instrs.contains(x) && x is Phi && 0 <= m < x->Phi_incomings.len()
            ==> has_pred(blocks, blocks[k].name, x->Phi_incomings[m].1)
}

/// Every phi of a lowered function names, in each incoming, a block of the
/// function whose terminator branches to the phi's block.
pub proof fn law_lowered_phis_name_predecessors(f: AstFunctionV, funs: Seq<FunSigV>)
    requires
        s_lower_function(f, funs) is Ok,
    ensures
        phis_name_predecessors(s_lower_function(f, funs)->Ok_0.blocks),
{
    let r = Set::<int>::empty();
    let st0 = s_initial_state(f.params);
    assert forall|k: int, x: InstrV| 0 <= k < st0.blocks.len() implies !#[trigger] st0.blocks[k].instrs.contains(x) by {
        assert(st0.blocks[k].instrs.len() == 0);
    }
    assert(pre_ok(st0, r));
    p_emit(funs, st0, f.body, r);
    let (st, v) = s_emit(funs, st0, f.body)->Ok_0;
    lemma_step_pre(st0, st, r);
    lemma_term(st, TerminatorV::Ret { value: v }, r);
    let b = b_set_term(st, TerminatorV::Ret { value: v }).blocks;
    assert(b == s_lower_function(f, funs)->Ok_0.blocks);
    lemma_sound_names(b, st.current, r);
}

proof fn lemma_sound_names(b: Seq<BasicBlockV>, c: int, r: Set<int>)
    requires
        phis_sound(b, c, r),
    ensures
        phis_name_predecessors(b),
{
    assert forall|k: int, x: InstrV, m: int|
        #![trigger b[k].instrs.contains(x), x->Phi_incomings[m]]
        0 <= k < b.len() && b[k].instrs.contains(x) && x is Phi && 0 <= m < x->Phi_incomings.len()
        implies has_pred(b, b[k].name, x->Phi_incomings[m].1) by {
        let lbl = x->Phi_incomings[m].1;
        assert(incoming_ok(b, c, r, b[k].name, lbl));
        let j = choose|j: int| #[trigger] pred_at(b, c, r, b[k].name, lbl, j);
        assert(pred_at(b, c, r, b[k].name, lbl, j));
        assert(0 <= j < b.len() && b[j].name == lbl && branches_to(b[j].term, b[k].name));
    }
}

/// The same for every function of a lowered program.
pub proof fn law_lowered_program_phis_name_predecessors(p: ProgramV)
    requires
        spec_lower(p) is Ok,
    ensures
        forall|f: int| 0 <= f < spec_lower(p)->Ok_0.functions.len()
            ==> phis_name_predecessors(#[trigger] spec_lower(p)->Ok_0.functions[f].blocks),
{
    lemma_lower_functions(p.functions, 0, program_sigs(p));
}

proof fn lemma_lower_functions(fs: Seq<AstFunctionV>, i: int, funs: Seq<FunSigV>)
    ensures
        s_lower_functions(fs, i, funs) matches Ok(cfs) ==> forall|k: int| 0 <= k < cfs.len()
            ==> phis_name_predecessors(#[trigger] cfs[k].blocks),
    decreases fs.len() - i,
{
    if 0 <= i < fs.len() {
        lemma_lower_functions(fs, i + 1, funs);
        if let Ok(cf) = s_lower_function(fs[i], funs) {
            law_lowered_phis_name_predecessors(fs[i], funs);
            if let Ok(rest) = s_lower_functions(fs, i + 1, funs) {
                let all = seq![cf] + rest;
                assert forall|k: int| 0 <= k < all.len() implies phis_name_predecessors(#[trigger] all[k].blocks) by {
                    if k > 0 {
                        assert(all[k] == rest[k - 1]);
                    }
                }
            }
        }
    }
}

} // verus!
