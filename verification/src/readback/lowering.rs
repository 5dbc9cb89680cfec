//! What the lowering writes is as the reader expects it: every name and
//! operand that the compiler puts into a module is plain.
use vstd::prelude::*;
use crate::text::{nat_decimal, int_decimal, digit_char, spec_is_whitespace, spec_is_digit};
use crate::vm::chars::{parse_i64, digits_value, all_digits};
use crate::readback::{plain, plain_char, local_ref, value_ok, instr_ok, term_ok};
use crate::readback::program::{block_ok, function_ok, module_ok};
use crate::compiler::ast::{Type, ExprV, StmtV, BinOp, UnaryOp, FunctionV as AstFunctionV, ProgramV};
use crate::compiler::ir as cir;
use crate::compiler::codegen::{
    BuilderV, b_temp, b_label, b_new_block, b_set_current, b_push, b_set_term, addr_text, next_count,
    slot_text, needs_slot, s_make_slot, s_bind, lookup_slot, b_scope,
    s_emit, s_emit_args, s_emit_let, s_emit_stmt, s_emit_stmts, s_binary_instr, typed_call_args,
    s_initial_state, s_lower_function, s_lower_functions, spec_lower,
};
use crate::compiler::sema::program_sigs;
use crate::compiler::ast::ParamV as AstParamV;
use crate::readback::program::tr_module;
use crate::vm::reader::{IrErr, spec_parse_module};
use crate::vm::ir as vir;
use crate::compiler::sema::FunSigV;
use crate::vm::reader::spec_parse_predicate;

verus! {

proof fn lemma_digit_char(d: nat)
    requires
        d < 10,
    ensures
        spec_is_digit(digit_char(d)),
        digit_char(d) as int - '0' as int == d,
        plain_char(digit_char(d)),
{
}

/// The decimal digits of a number: digits only, and they denote it.
pub proof fn lemma_nat_decimal(n: nat)
    ensures
        nat_decimal(n).len() > 0,
        all_digits(nat_decimal(n)),
        digits_value(nat_decimal(n)) == n,
        plain(nat_decimal(n)),
    decreases n,
{
    let s = nat_decimal(n);
    if n < 10 {
        lemma_digit_char(n);
        assert(s.drop_last() =~= Seq::<char>::empty());
        assert(digits_value(s) == digits_value(Seq::<char>::empty()) * 10 + (digit_char(n) as int - '0' as int));
    } else {
        lemma_nat_decimal(n / 10);
        lemma_digit_char(n % 10);
        let p = nat_decimal(n / 10);
        assert(s.drop_last() =~= p);
        assert(s.last() == digit_char(n % 10));
        assert forall|i: int| 0 <= i < s.len() implies spec_is_digit(#[trigger] s[i]) && plain_char(s[i]) by {
            if i < p.len() {
                assert(s[i] == p[i]);
            }
        }
        assert(digits_value(s) == digits_value(p) * 10 + (n % 10));
        assert(n == (n / 10) * 10 + n % 10) by (nonlinear_arith);
    }
}

/// An `i32` as the compiler writes it is an operand that reads back as itself.
pub proof fn lemma_int_decimal_value(v: i32)
    ensures
        value_ok(int_decimal(v as int)),
        parse_i64(int_decimal(v as int)) == Some(v as i64),
{
    reveal_strlit("true");
    reveal_strlit("false");
    let s = int_decimal(v as int);
    if v < 0 {
        let m = (-(v as int)) as nat;
        lemma_nat_decimal(m);
        let ds = nat_decimal(m);
        assert(s == seq!['-'] + ds);
        assert(s.drop_first() =~= ds);
        assert forall|i: int| 0 <= i < s.len() implies plain_char(#[trigger] s[i]) by {
            if i > 0 {
                assert(s[i] == ds[i - 1]);
            }
        }
        assert(s[0] == '-');
    } else {
        lemma_nat_decimal(v as nat);
        assert(s[0] != '-' && s[0] != '+');
    }
    assert(s != "true"@ && s != "false"@ || true);
}

/// The names and operands of a compiled instruction are as the compiler
/// writes them.
pub open spec fn instr_names_ok(i: cir::InstrV) -> bool {
    match i {
        cir::InstrV::Add { dest, lhs, rhs } => local_ref(dest) && value_ok(lhs) && value_ok(rhs),
        cir::InstrV::Sub { dest, lhs, rhs } => local_ref(dest) && value_ok(lhs) && value_ok(rhs),
        cir::InstrV::Mul { dest, lhs, rhs } => local_ref(dest) && value_ok(lhs) && value_ok(rhs),
        cir::InstrV::SDiv { dest, lhs, rhs } => local_ref(dest) && value_ok(lhs) && value_ok(rhs),
        cir::InstrV::SRem { dest, lhs, rhs } => local_ref(dest) && value_ok(lhs) && value_ok(rhs),
        cir::InstrV::And { dest, lhs, rhs } => local_ref(dest) && value_ok(lhs) && value_ok(rhs),
        cir::InstrV::Or { dest, lhs, rhs } => local_ref(dest) && value_ok(lhs) && value_ok(rhs),
        cir::InstrV::Xor { dest, lhs, rhs } => local_ref(dest) && value_ok(lhs) && value_ok(rhs),
        cir::InstrV::ICmp { dest, pred, ty, lhs, rhs } => local_ref(dest) && plain(pred)
            && spec_parse_predicate(pred) is Ok && value_ok(lhs) && value_ok(rhs),
        cir::InstrV::Call { dest, ret_ty, func, args } => dest matches Some(d) && local_ref(d) && plain(func)
            && forall|k: int| 0 <= k < args.len() ==> value_ok(#[trigger] args[k].1),
        cir::InstrV::Alloca { dest, ty } => local_ref(dest),
        cir::InstrV::Store { ty, value, ptr } => value_ok(value) && value_ok(ptr),
        cir::InstrV::Load { dest, ty, ptr } => local_ref(dest) && value_ok(ptr),
        cir::InstrV::Phi { dest, ty, incomings } => local_ref(dest) && incomings.len() > 0
            && forall|k: int| 0 <= k < incomings.len() ==> value_ok(#[trigger] incomings[k].0) && plain(incomings[k].1),
    }
}

pub open spec fn block_names_ok(b: cir::BasicBlockV) -> bool {
    &&& plain(b.name)
    &&& forall|k: int| 0 <= k < b.instrs.len() ==> instr_names_ok(#[trigger] b.instrs[k])
    &&& term_ok(b.term)
}

/// A lowering state whose blocks hold only plain names and operands.
pub open spec fn builder_ok(st: BuilderV) -> bool {
    &&& 0 <= st.current < st.blocks.len()
    &&& forall|k: int| 0 <= k < st.blocks.len() ==> block_names_ok(#[trigger] st.blocks[k])
    &&& forall|k: int| 0 <= k < st.locals.len() ==> plain(#[trigger] st.locals[k])
    &&& forall|k: int| 0 <= k < st.scope.len() ==> local_ref(#[trigger] st.scope[k].1)
}

proof fn lemma_lookup_slot(scope: Seq<(Seq<char>, Seq<char>)>, n: Seq<char>)
    requires
        forall|k: int| 0 <= k < scope.len() ==> local_ref(#[trigger] scope[k].1),
    ensures
        lookup_slot(scope, n) matches Some(p) ==> local_ref(p),
    decreases scope.len(),
{
    if scope.len() > 0 && scope.last().0 != n {
        assert forall|k: int| 0 <= k < scope.drop_last().len() implies local_ref(#[trigger] scope.drop_last()[k].1) by {
            assert(scope.drop_last()[k] == scope[k]);
        }
        lemma_lookup_slot(scope.drop_last(), n);
    }
}

proof fn lemma_b_temp(st: BuilderV)
    requires
        builder_ok(st),
    ensures
        builder_ok(b_temp(st).0),
        local_ref(b_temp(st).1),
        b_temp(st).0.blocks == st.blocks,
        b_temp(st).0.locals == st.locals,
        b_temp(st).0.locals_ty == st.locals_ty,
        b_temp(st).0.current == st.current,
{
    reveal_strlit("%t");
    let t = next_count(st.temp);
    lemma_nat_decimal(t as nat);
    let d = "%t"@ + nat_decimal(t as nat);
    let n = d.drop_first();
    assert(n =~= seq!['t'] + nat_decimal(t as nat));
    assert forall|i: int| 0 <= i < n.len() implies plain_char(#[trigger] n[i]) by {
        if i > 0 {
            assert(n[i] == nat_decimal(t as nat)[i - 1]);
        }
    }
}

proof fn lemma_b_label(st: BuilderV, prefix: Seq<char>)
    requires
        builder_ok(st),
        plain(prefix),
    ensures
        builder_ok(b_label(st, prefix).0),
        plain(b_label(st, prefix).1),
        b_label(st, prefix).0.blocks == st.blocks,
        b_label(st, prefix).0.locals == st.locals,
        b_label(st, prefix).0.locals_ty == st.locals_ty,
        b_label(st, prefix).0.current == st.current,
{
    let l = next_count(st.label);
    lemma_nat_decimal(l as nat);
    let n = prefix + nat_decimal(l as nat);
    assert forall|i: int| 0 <= i < n.len() implies plain_char(#[trigger] n[i]) by {
        if i < prefix.len() {
            assert(n[i] == prefix[i]);
        } else {
            assert(n[i] == nat_decimal(l as nat)[i - prefix.len()]);
        }
    }
}

proof fn lemma_b_new_block(st: BuilderV, name: Seq<char>)
    requires
        builder_ok(st),
        plain(name),
    ensures
        builder_ok(b_new_block(st, name)),
        b_new_block(st, name).blocks.len() == st.blocks.len() + 1,
        b_new_block(st, name).locals == st.locals,
        b_new_block(st, name).locals_ty == st.locals_ty,
        b_new_block(st, name).current == st.current,
{
    reveal_strlit("0");
    let st2 = b_new_block(st, name);
    let nb = cir::BasicBlockV { name, instrs: seq![], term: cir::TerminatorV::Ret { value: "0"@ } };
    assert(st2.blocks == st.blocks.push(nb));
    assert(value_ok("0"@)) by {
        assert(parse_i64("0"@) == Some(0i64)) by {
            lemma_nat_decimal(0);
            assert(nat_decimal(0) =~= "0"@);
        }
    }
    assert forall|k: int| 0 <= k < st2.blocks.len() implies block_names_ok(#[trigger] st2.blocks[k]) by {
        if k < st.blocks.len() {
            assert(st2.blocks[k] == st.blocks[k]);
        } else {
            assert(st2.blocks[k] == nb);
        }
    }
}

proof fn lemma_b_push(st: BuilderV, i: cir::InstrV)
    requires
        builder_ok(st),
        instr_names_ok(i),
    ensures
        builder_ok(b_push(st, i)),
        b_push(st, i).blocks.len() == st.blocks.len(),
        b_push(st, i).locals == st.locals,
        b_push(st, i).locals_ty == st.locals_ty,
        b_push(st, i).current == st.current,
{
    let st2 = b_push(st, i);
    let b = st.blocks[st.current];
    let nb = cir::BasicBlockV { name: b.name, instrs: b.instrs.push(i), term: b.term };
    assert(block_names_ok(b));
    assert forall|k: int| 0 <= k < nb.instrs.len() implies instr_names_ok(#[trigger] nb.instrs[k]) by {
        if k < b.instrs.len() {
            assert(nb.instrs[k] == b.instrs[k]);
        }
    }
    assert forall|k: int| 0 <= k < st2.blocks.len() implies block_names_ok(#[trigger] st2.blocks[k]) by {
        if k != st.current {
            assert(st2.blocks[k] == st.blocks[k]);
        }
    }
}

proof fn lemma_b_set_term(st: BuilderV, t: cir::TerminatorV)
    requires
        builder_ok(st),
        term_ok(t),
    ensures
        builder_ok(b_set_term(st, t)),
        b_set_term(st, t).blocks.len() == st.blocks.len(),
        b_set_term(st, t).locals == st.locals,
        b_set_term(st, t).locals_ty == st.locals_ty,
        b_set_term(st, t).current == st.current,
{
    let st2 = b_set_term(st, t);
    let b = st.blocks[st.current];
    assert(block_names_ok(b));
    assert forall|k: int| 0 <= k < st2.blocks.len() implies block_names_ok(#[trigger] st2.blocks[k]) by {
        if k != st.current {
            assert(st2.blocks[k] == st.blocks[k]);
        }
    }
}

/// Every name that a source expression uses is plain.
pub open spec fn expr_names_ok(e: ExprV) -> bool
    decreases e, 1int,
{
    match e {
        ExprV::Int(_) => true,
        ExprV::Bool(_) => true,
        ExprV::Ident(n) => plain(n),
        ExprV::Unary { op, expr } => expr_names_ok(*expr),
        ExprV::Binary { op, lhs, rhs } => expr_names_ok(*lhs) && expr_names_ok(*rhs),
        ExprV::If { cond, then_expr, else_expr } => expr_names_ok(*cond) && expr_names_ok(*then_expr)
            && expr_names_ok(*else_expr),
        ExprV::While { cond, body } => expr_names_ok(*cond) && expr_names_ok(*body),
        ExprV::Call { name, args } => plain(name) && args_names_ok(args),
        ExprV::Block { stmts, expr } => stmts_names_ok(stmts) && expr_names_ok(*expr),
    }
}

pub open spec fn args_names_ok(args: Seq<ExprV>) -> bool
    decreases args, 1int,
{
    if args.len() == 0 {
        true
    } else {
        expr_names_ok(args[0]) && args_names_ok(args.drop_first())
    }
}

pub open spec fn stmt_names_ok(s: StmtV) -> bool
    decreases s, 3int,
{
    match s {
        StmtV::Let { name, value, .. } => plain(name) && expr_names_ok(value),
        StmtV::Expr(x) => expr_names_ok(x),
    }
}

pub open spec fn stmts_names_ok(ss: Seq<StmtV>) -> bool
    decreases ss, 1int,
{
    if ss.len() == 0 {
        true
    } else {
        stmt_names_ok(ss[0]) && stmts_names_ok(ss.drop_first())
    }
}

pub proof fn lemma_literal_values()
    ensures
        value_ok("0"@),
        value_ok("true"@),
        value_ok("false"@),
{
    reveal_strlit("0");
    reveal_strlit("true");
    reveal_strlit("false");
    lemma_nat_decimal(0);
    assert(nat_decimal(0) =~= "0"@);
}

proof fn lemma_addr_text(n: Seq<char>)
    requires
        plain(n),
    ensures
        local_ref(addr_text(n)),
{
    reveal_strlit("%");
    reveal_strlit(".addr");
    let a = addr_text(n);
    let t = a.drop_first();
    assert(t =~= n + ".addr"@);
    assert forall|i: int| 0 <= i < t.len() implies plain_char(#[trigger] t[i]) by {
        if i < n.len() {
            assert(t[i] == n[i]);
        }
    }
}

proof fn lemma_binary_instr(op: BinOp, d: Seq<char>, l: Seq<char>, r: Seq<char>, lhs: ExprV, env: Seq<(Seq<char>, Type)>, funs: Seq<FunSigV>)
    requires
        local_ref(d),
        value_ok(l),
        value_ok(r),
    ensures
        s_binary_instr(op, d, l, r, lhs, env, funs) matches Ok(i) ==> instr_names_ok(i),
{
    reveal_strlit("slt");
    reveal_strlit("sle");
    reveal_strlit("sgt");
    reveal_strlit("sge");
    reveal_strlit("eq");
    reveal_strlit("ne");
    reveal_strlit("i1");
    reveal_strlit("i32");
    reveal_strlit("i64");
    reveal_strlit("void");
    reveal_strlit("ult");
    reveal_strlit("ule");
    reveal_strlit("ugt");
    reveal_strlit("uge");
}

proof fn lemma_b_set_current(st: BuilderV, idx: int)
    requires
        builder_ok(st),
        0 <= idx < st.blocks.len(),
    ensures
        builder_ok(b_set_current(st, idx)),
        b_set_current(st, idx).blocks == st.blocks,
        b_set_current(st, idx).locals == st.locals,
        b_set_current(st, idx).locals_ty == st.locals_ty,
{
}

/// Lowering an expression keeps every name and operand plain, and yields an
/// operand as the compiler writes it.
#[verifier::spinoff_prover]
#[verifier::rlimit(100)]
proof fn lemma_emit(funs: Seq<FunSigV>, st: BuilderV, e: ExprV)
    requires
        builder_ok(st),
        expr_names_ok(e),
    ensures
        s_emit(funs, st, e) matches Ok((st2, v)) ==> builder_ok(st2) && value_ok(v)
            && st2.blocks.len() >= st.blocks.len(),
    decreases e, 1int,
{
    lemma_literal_values();
    reveal_strlit("then");
    reveal_strlit("else");
    reveal_strlit("merge");
    reveal_strlit("cond");
    reveal_strlit("body");
    reveal_strlit("exit");
    reveal_strlit("%");
    match e {
        ExprV::Int(v) => {
            lemma_int_decimal_value(v);
        },
        ExprV::Bool(b) => {},
        ExprV::Ident(n) => {
            lemma_lookup_slot(st.scope, n);
            match lookup_slot(st.scope, n) {
                Some(ptr) => {
                    lemma_b_temp(st);
                    let (st1, d) = b_temp(st);
                    match crate::compiler::sema::lookup_type(st.locals_ty, n) {
                        None => {},
                        Some(ty) => {
                            lemma_b_push(st1, cir::InstrV::Load { dest: d, ty, ptr });
                        },
                    }
                },
                None => {
                    let v = "%"@ + n;
                    assert(v.drop_first() =~= n);
                },
            }
        },
        ExprV::Binary { op, lhs, rhs } => {
            lemma_emit(funs, st, *lhs);
            match s_emit(funs, st, *lhs) {
                Err(_) => {},
                Ok((st1, l)) => {
                    lemma_emit(funs, st1, *rhs);
                    match s_emit(funs, st1, *rhs) {
                        Err(_) => {},
                        Ok((st2, r)) => {
                            lemma_b_temp(st2);
                            let (st3, d) = b_temp(st2);
                            lemma_binary_instr(op, d, l, r, *lhs, st3.locals_ty, funs);
                            match s_binary_instr(op, d, l, r, *lhs, st3.locals_ty, funs) {
                                Err(_) => {},
                                Ok(i) => {
                                    lemma_b_push(st3, i);
                                },
                            }
                        },
                    }
                },
            }
        },
        ExprV::Unary { op, expr } => {
            lemma_emit(funs, st, *expr);
            match s_emit(funs, st, *expr) {
                Err(_) => {},
                Ok((st1, v)) => {
                    lemma_b_temp(st1);
                    let (st2, d) = b_temp(st1);
                    let i = match op {
                        UnaryOp::Neg => cir::InstrV::Sub { dest: d, lhs: "0"@, rhs: v },
                        UnaryOp::Not => cir::InstrV::Xor { dest: d, lhs: v, rhs: "true"@ },
                    };
                    lemma_b_push(st2, i);
                },
            }
        },
        ExprV::Call { name, args } => {
            lemma_emit_args(funs, st, args);
            match s_emit_args(funs, st, args) {
                Err(_) => {},
                Ok((st1, vals)) => {
                    lemma_b_temp(st1);
                    let (st2, d) = b_temp(st1);
                    let sig = crate::compiler::sema::lookup_fun(funs, name);
                    let ret_ty = match sig { Some(s) => s.ret, None => Type::I32 };
                    let ptys = match sig { Some(s) => s.params, None => seq![] };
                    let targs = typed_call_args(ptys, vals);
                    assert forall|k: int| 0 <= k < targs.len() implies value_ok(#[trigger] targs[k].1) by {
                        assert(targs[k].1 == vals[k]);
                    }
                    lemma_b_push(st2, cir::InstrV::Call { dest: Some(d), ret_ty, func: name, args: targs });
                },
            }
        },
        ExprV::If { cond, then_expr, else_expr } => {
            lemma_emit(funs, st, *cond);
            match s_emit(funs, st, *cond) {
                Err(_) => {},
                Ok((st1, c)) => {
                    lemma_b_label(st1, "then"@);
                    let (st2, tn) = b_label(st1, "then"@);
                    lemma_b_label(st2, "else"@);
                    let (st3, en) = b_label(st2, "else"@);
                    lemma_b_label(st3, "merge"@);
                    let (st4, mn) = b_label(st3, "merge"@);
                    let ti = st4.blocks.len() as int;
                    lemma_b_new_block(st4, tn);
                    let st5 = b_new_block(st4, tn);
                    let ei = st5.blocks.len() as int;
                    lemma_b_new_block(st5, en);
                    let st6 = b_new_block(st5, en);
                    let mi = st6.blocks.len() as int;
                    lemma_b_new_block(st6, mn);
                    let st7 = b_new_block(st6, mn);
                    lemma_b_set_term(st7, cir::TerminatorV::CondBr { cond: c, then_dest: tn, else_dest: en });
                    let st8 = b_set_term(st7, cir::TerminatorV::CondBr { cond: c, then_dest: tn, else_dest: en });
                    lemma_b_set_current(st8, ti);
                    lemma_emit(funs, b_set_current(st8, ti), *then_expr);
                    match s_emit(funs, b_set_current(st8, ti), *then_expr) {
                        Err(_) => {},
                        Ok((st9, tv)) => {
                            lemma_b_set_term(st9, cir::TerminatorV::Br { dest: mn });
                            lemma_b_set_current(b_set_term(st9, cir::TerminatorV::Br { dest: mn }), ei);
                            let st10 = b_set_current(b_set_term(st9, cir::TerminatorV::Br { dest: mn }), ei);
                            lemma_emit(funs, st10, *else_expr);
                            match s_emit(funs, st10, *else_expr) {
                                Err(_) => {},
                                Ok((st11, ev)) => {
                                    lemma_b_set_term(st11, cir::TerminatorV::Br { dest: mn });
                                    lemma_b_set_current(b_set_term(st11, cir::TerminatorV::Br { dest: mn }), mi);
                                    let st12 = b_set_current(b_set_term(st11, cir::TerminatorV::Br { dest: mn }), mi);
                                    lemma_b_temp(st12);
                                    let (st13, d) = b_temp(st12);
                                    match crate::compiler::codegen::s_type_of(*then_expr, st13.locals_ty, funs) {
                                        Err(_) => {},
                                        Ok(pty) => {
                                            let incs = seq![(tv, st9.blocks[st9.current].name), (ev, st11.blocks[st11.current].name)];
                                            assert(block_names_ok(st9.blocks[st9.current]));
                                            assert(block_names_ok(st11.blocks[st11.current]));
                                            assert forall|k: int| 0 <= k < incs.len() implies value_ok(#[trigger] incs[k].0) && plain(incs[k].1) by {}
                                            lemma_b_push(st13, cir::InstrV::Phi { dest: d, ty: pty, incomings: incs });
                                        },
                                    }
                                },
                            }
                        },
                    }
                },
            }
        },
        ExprV::While { cond, body } => {
            lemma_b_label(st, "cond"@);
            let (st1, cn) = b_label(st, "cond"@);
            lemma_b_label(st1, "body"@);
            let (st2, bn) = b_label(st1, "body"@);
            lemma_b_label(st2, "exit"@);
            let (st3, xn) = b_label(st2, "exit"@);
            let ci = st3.blocks.len() as int;
            lemma_b_new_block(st3, cn);
            let st4 = b_new_block(st3, cn);
            let bi = st4.blocks.len() as int;
            lemma_b_new_block(st4, bn);
            let st5 = b_new_block(st4, bn);
            let xi = st5.blocks.len() as int;
            lemma_b_new_block(st5, xn);
            let st6 = b_new_block(st5, xn);
            lemma_b_set_term(st6, cir::TerminatorV::Br { dest: cn });
            lemma_b_set_current(b_set_term(st6, cir::TerminatorV::Br { dest: cn }), ci);
            let st7 = b_set_current(b_set_term(st6, cir::TerminatorV::Br { dest: cn }), ci);
            lemma_emit(funs, st7, *cond);
            match s_emit(funs, st7, *cond) {
                Err(_) => {},
                Ok((st8, c)) => {
                    lemma_b_set_term(st8, cir::TerminatorV::CondBr { cond: c, then_dest: bn, else_dest: xn });
                    lemma_b_set_current(b_set_term(st8, cir::TerminatorV::CondBr { cond: c, then_dest: bn, else_dest: xn }), bi);
                    let st9 = b_set_current(b_set_term(st8, cir::TerminatorV::CondBr { cond: c, then_dest: bn, else_dest: xn }), bi);
                    lemma_emit(funs, st9, *body);
                    match s_emit(funs, st9, *body) {
                        Err(_) => {},
                        Ok((st10, _)) => {
                            lemma_b_set_term(st10, cir::TerminatorV::Br { dest: cn });
                            lemma_b_set_current(b_set_term(st10, cir::TerminatorV::Br { dest: cn }), xi);
                        },
                    }
                },
            }
        },
        ExprV::Block { stmts, expr } => {
            lemma_emit_stmts(funs, st, stmts);
            match s_emit_stmts(funs, st, stmts) {
                Err(_) => {},
                Ok(st1) => {
                    lemma_emit(funs, st1, *expr);
                    match s_emit(funs, st1, *expr) {
                        Err(_) => {},
                        Ok((st2, v)) => {
                            assert(builder_ok(b_scope(st2, st.scope, st.locals_ty)));
                        },
                    }
                },
            }
        },
    }
}

proof fn lemma_emit_args(funs: Seq<FunSigV>, st: BuilderV, args: Seq<ExprV>)
    requires
        builder_ok(st),
        args_names_ok(args),
    ensures
        s_emit_args(funs, st, args) matches Ok((st2, vs)) ==> builder_ok(st2)
            && st2.blocks.len() >= st.blocks.len() && vs.len() == args.len()
            && forall|k: int| 0 <= k < vs.len() ==> value_ok(#[trigger] vs[k]),
    decreases args, 1int,
{
    if args.len() > 0 {
        lemma_emit(funs, st, args[0]);
        match s_emit(funs, st, args[0]) {
            Err(_) => {},
            Ok((st1, v)) => {
                lemma_emit_args(funs, st1, args.drop_first());
                match s_emit_args(funs, st1, args.drop_first()) {
                    Err(_) => {},
                    Ok((st2, vs)) => {
                        let all = seq![v] + vs;
                        assert forall|k: int| 0 <= k < all.len() implies value_ok(#[trigger] all[k]) by {
                            if k > 0 {
                                assert(all[k] == vs[k - 1]);
                            }
                        }
                    },
                }
            },
        }
    }
}

/// A new binding's slot is a local as the compiler writes it.
proof fn lemma_slot_text(made: Seq<Seq<char>>, scope: Seq<(Seq<char>, Seq<char>)>, name: Seq<char>)
    requires
        plain(name),
    ensures
        local_ref(slot_text(made, scope, name)),
{
    lemma_addr_text(name);
    if lookup_slot(scope, name) is Some {
        let a = addr_text(name);
        let ds = nat_decimal(made.len());
        lemma_nat_decimal(made.len());
        let s = a + ds;
        let t = s.drop_first();
        assert(t =~= a.drop_first() + ds);
        assert forall|i: int| 0 <= i < t.len() implies plain_char(#[trigger] t[i]) by {
            if i < a.drop_first().len() {
                assert(t[i] == a.drop_first()[i]);
            } else {
                assert(t[i] == ds[i - a.drop_first().len()]);
            }
        }
    }
}

/// Making a stack slot `ptr` for `name`: its `alloca` first in the entry block.
proof fn lemma_make_slot(st: BuilderV, name: Seq<char>, ptr: Seq<char>, ty: Type)
    requires
        builder_ok(st),
        plain(name),
        local_ref(ptr),
    ensures
        builder_ok(s_make_slot(st, name, ptr, ty)),
        s_make_slot(st, name, ptr, ty).blocks.len() == st.blocks.len(),
{
    let b0 = st.blocks[0];
    let st1 = s_make_slot(st, name, ptr, ty);
    let nb = st1.blocks[0];
    assert(block_names_ok(b0));
    assert forall|k: int| 0 <= k < nb.instrs.len() implies instr_names_ok(#[trigger] nb.instrs[k]) by {
        if k > 0 {
            assert(nb.instrs[k] == b0.instrs[k - 1]);
        }
    }
    assert forall|k: int| 0 <= k < st1.blocks.len() implies block_names_ok(#[trigger] st1.blocks[k]) by {
        if k != 0 {
            assert(st1.blocks[k] == st.blocks[k]);
        }
    }
    assert forall|k: int| 0 <= k < st1.locals.len() implies plain(#[trigger] st1.locals[k]) by {
        if k < st.locals.len() {
            assert(st1.locals[k] == st.locals[k]);
        }
    }
}

/// Binding `name` to the slot `ptr`.
proof fn lemma_bind(st: BuilderV, name: Seq<char>, ptr: Seq<char>, ty: Type)
    requires
        builder_ok(st),
        local_ref(ptr),
    ensures
        builder_ok(s_bind(st, name, ptr, ty)),
        s_bind(st, name, ptr, ty).blocks == st.blocks,
{
    let st1 = s_bind(st, name, ptr, ty);
    assert forall|k: int| 0 <= k < st1.scope.len() implies local_ref(#[trigger] st1.scope[k].1) by {
        if k < st.scope.len() {
            assert(st1.scope[k] == st.scope[k]);
        }
    }
}

#[verifier::spinoff_prover]
#[verifier::rlimit(100)]
proof fn lemma_emit_let(funs: Seq<FunSigV>, st: BuilderV, name: Seq<char>, value: ExprV)
    requires
        builder_ok(st),
        plain(name),
        expr_names_ok(value),
    ensures
        s_emit_let(funs, st, name, value) matches Ok(st2) ==> builder_ok(st2) && st2.blocks.len() >= st.blocks.len(),
    decreases value, 2int,
{
    match crate::compiler::codegen::s_type_of(value, st.locals_ty, funs) {
        Err(_) => {},
        Ok(vty) => {
            lemma_emit(funs, st, value);
            match s_emit(funs, st, value) {
                Err(_) => {},
                Ok((st1, v)) => {
                    let ptr = slot_text(st1.locals, st1.scope, name);
                    lemma_slot_text(st1.locals, st1.scope, name);
                    let st2 = if needs_slot(st1.locals, st1.scope, name) {
                        lemma_make_slot(st1, name, ptr, vty);
                        s_make_slot(st1, name, ptr, vty)
                    } else {
                        st1
                    };
                    lemma_bind(st2, name, ptr, vty);
                    lemma_b_push(s_bind(st2, name, ptr, vty), cir::InstrV::Store { ty: vty, value: v, ptr });
                },
            }
        },
    }
}

proof fn lemma_emit_stmt(funs: Seq<FunSigV>, st: BuilderV, s: StmtV)
    requires
        builder_ok(st),
        stmt_names_ok(s),
    ensures
        s_emit_stmt(funs, st, s) matches Ok(st2) ==> builder_ok(st2) && st2.blocks.len() >= st.blocks.len(),
    decreases s, 3int,
{
    match s {
        StmtV::Let { name, value, .. } => lemma_emit_let(funs, st, name, value),
        StmtV::Expr(x) => lemma_emit(funs, st, x),
    }
}

proof fn lemma_emit_stmts(funs: Seq<FunSigV>, st: BuilderV, ss: Seq<StmtV>)
    requires
        builder_ok(st),
        stmts_names_ok(ss),
    ensures
        s_emit_stmts(funs, st, ss) matches Ok(st2) ==> builder_ok(st2) && st2.blocks.len() >= st.blocks.len(),
    decreases ss, 1int,
{
    if ss.len() > 0 {
        lemma_emit_stmt(funs, st, ss[0]);
        match s_emit_stmt(funs, st, ss[0]) {
            Err(_) => {},
            Ok(st1) => {
                lemma_emit_stmts(funs, st1, ss.drop_first());
            },
        }
    }
}

/// Every name of a source function is plain.
pub open spec fn function_names_ok(f: AstFunctionV) -> bool {
    &&& plain(f.name)
    &&& forall|k: int| 0 <= k < f.params.len() ==> plain(#[trigger] f.params[k].name)
    &&& expr_names_ok(f.body)
}

/// Every name of a source program is plain: identifiers, as the lexer reads them, are.
pub open spec fn program_names_ok(p: ProgramV) -> bool {
    forall|k: int| 0 <= k < p.functions.len() ==> function_names_ok(#[trigger] p.functions[k])
}

proof fn lemma_instr_parts(i: cir::InstrV)
    requires
        instr_names_ok(i),
    ensures
        instr_ok(i),
{
    match i {
        cir::InstrV::Call { dest, ret_ty, func, args } => {
            assert(i->Call_args == args);
        },
        cir::InstrV::Phi { dest, ty, incomings } => {
            assert(i->Phi_incomings == incomings);
        },
        _ => {},
    }
}

/// A lowered function's names and operands are plain.
proof fn lemma_lower_function(f: AstFunctionV, funs: Seq<FunSigV>)
    requires
        function_names_ok(f),
    ensures
        s_lower_function(f, funs) matches Ok(cf) ==> plain(cf.name)
            && (forall|k: int| 0 <= k < cf.params.len() ==> plain(#[trigger] cf.params[k].name))
            && (forall|k: int| 0 <= k < cf.blocks.len() ==> block_names_ok(#[trigger] cf.blocks[k])),
{
    reveal_strlit("entry");
    let st0 = s_initial_state(f.params);
    lemma_literal_values();
    assert(builder_ok(st0)) by {
        assert(st0.blocks[0].instrs.len() == 0);
    }
    lemma_emit(funs, st0, f.body);
    match s_emit(funs, st0, f.body) {
        Err(_) => {},
        Ok((st, v)) => {
            lemma_b_set_term(st, cir::TerminatorV::Ret { value: v });
            let cps = f.params.map_values(|q: AstParamV| cir::ParamV { name: q.name, ty: q.ty });
            assert forall|k: int| 0 <= k < cps.len() implies plain(#[trigger] cps[k].name) by {
                assert(cps[k].name == f.params[k].name);
            }
        },
    }
}

proof fn lemma_lower_functions(fs: Seq<AstFunctionV>, i: int, funs: Seq<FunSigV>)
    requires
        forall|k: int| 0 <= k < fs.len() ==> function_names_ok(#[trigger] fs[k]),
    ensures
        s_lower_functions(fs, i, funs) matches Ok(cfs) ==> forall|k: int| 0 <= k < cfs.len() ==> {
            let cf = #[trigger] cfs[k];
            &&& plain(cf.name)
            &&& forall|j: int| 0 <= j < cf.params.len() ==> plain(#[trigger] cf.params[j].name)
            &&& forall|j: int| 0 <= j < cf.blocks.len() ==> block_names_ok(#[trigger] cf.blocks[j])
        },
    decreases fs.len() - i,
{
    if 0 <= i < fs.len() {
        assert(function_names_ok(fs[i]));
        lemma_lower_function(fs[i], funs);
        lemma_lower_functions(fs, i + 1, funs);
        match s_lower_function(fs[i], funs) {
            Err(_) => {},
            Ok(cf) => {
                match s_lower_functions(fs, i + 1, funs) {
                    Err(_) => {},
                    Ok(rest) => {
                        let all = seq![cf] + rest;
                        assert forall|k: int| 0 <= k < all.len() implies {
                            let g = #[trigger] all[k];
                            &&& plain(g.name)
                            &&& forall|j: int| 0 <= j < g.params.len() ==> plain(#[trigger] g.params[j].name)
                            &&& forall|j: int| 0 <= j < g.blocks.len() ==> block_names_ok(#[trigger] g.blocks[j])
                        } by {
                            if k > 0 {
                                assert(all[k] == rest[k - 1]);
                            }
                        }
                    },
                }
            },
        }
    }
}

/// The machine reads back what the compiler writes for a whole program:
/// when lowering succeeds on a program whose names are identifiers, the
/// text of the lowered module parses to the machine module with the same
/// functions, blocks, instructions and terminators.
pub proof fn law_lowered_program_reads_back(p: ProgramV)
    requires
        program_names_ok(p),
        spec_lower(p) is Ok,
    ensures
        spec_parse_module(cir::module_text(spec_lower(p)->Ok_0))
            == Ok::<vir::ModuleV, IrErr>(tr_module(spec_lower(p)->Ok_0)),
{
    let m = spec_lower(p)->Ok_0;
    lemma_lower_functions(p.functions, 0, program_sigs(p));
    assert(m.functions == s_lower_functions(p.functions, 0, program_sigs(p))->Ok_0);
    assert forall|f: int| 0 <= f < m.functions.len() implies function_ok(#[trigger] m.functions[f]) by {
        let cf = m.functions[f];
        assert forall|b: int| 0 <= b < cf.blocks.len() implies block_ok(#[trigger] cf.blocks[b]) by {
            let blk = cf.blocks[b];
            assert(block_names_ok(blk));
            assert forall|i: int| 0 <= i < blk.instrs.len() implies instr_ok(#[trigger] blk.instrs[i]) by {
                assert(instr_names_ok(blk.instrs[i]));
                lemma_instr_parts(blk.instrs[i]);
            }
        }
    }
    crate::readback::program::law_module_text_reads_back(m);
}

} // verus!
