//! Lowering of a checked program to LLVM IR.
use vstd::prelude::*;
use crate::compiler::ast::{
    BinOp, Expr, ExprV, Function, FunctionV, ParamV as AstParamV, Program, ProgramV, Stmt, StmtV,
    Type, UnaryOp, expr_v, exprs_v, stmts_v, stmt_v, params_v, function_v, program_v,
    lemma_exprs_v_index, lemma_stmts_v_index,
};
use crate::compiler::ir::{
    BasicBlock, BasicBlockV, Instr, InstrV, Module, ModuleV, Param, ParamV, Terminator, TerminatorV,
    blocks_v, instrs_v, ir_params_v, typed_args_v, incomings_v,
};
use crate::compiler::sema::{
    FunSig, FunSigV, fun_sig_v, sigs_v, env_v, binding_v, names_v, lookup_type, lookup_fun,
    program_sigs, copy_env, lookup_env, lookup_sig, contains_name, fun_table,
    SemaErrorV, s_check, s_check_stmts,
};
use crate::text::{nat_decimal, int_decimal, push_decimal, push_int_decimal};

verus! {

/// Why lowering failed: a name that the program does not define.
#[derive(Debug)]
pub enum CodegenError {
    UnknownIdentifier(String),
    UnknownFunction(String),
}

pub enum CodegenErrorV {
    UnknownIdentifier(Seq<char>),
    UnknownFunction(Seq<char>),
}

pub open spec fn cerr_v(e: CodegenError) -> CodegenErrorV {
    match e {
        CodegenError::UnknownIdentifier(n) => CodegenErrorV::UnknownIdentifier(n@),
        CodegenError::UnknownFunction(n) => CodegenErrorV::UnknownFunction(n@),
    }
}

/// The state of the function under construction: its blocks, the block
/// that receives instructions, the temporary and label counters, the name
/// of every stack slot made so far (one per `let`), the bindings in force
/// that live in a stack slot (name and slot, the last one innermost), and
/// the variable types in force.
#[verifier::ext_equal]
pub struct BuilderV {
    pub blocks: Seq<BasicBlockV>,
    pub current: int,
    pub temp: int,
    pub label: int,
    pub locals: Seq<Seq<char>>,
    pub scope: Seq<(Seq<char>, Seq<char>)>,
    pub locals_ty: Seq<(Seq<char>, Type)>,
}

/// The successor of a counter (wrapping at the width of `usize`).
pub open spec fn next_count(n: int) -> int {
    if n >= usize::MAX { 0 } else { n + 1 }
}

/// A fresh temporary: `%t<n>` with the incremented counter.
pub open spec fn b_temp(st: BuilderV) -> (BuilderV, Seq<char>) {
    let t = next_count(st.temp);
    (
        BuilderV { blocks: st.blocks, current: st.current, temp: t, label: st.label, locals: st.locals, scope: st.scope, locals_ty: st.locals_ty },
        "%t"@ + nat_decimal(t as nat),
    )
}

/// A fresh label: the prefix followed by the incremented counter.
pub open spec fn b_label(st: BuilderV, prefix: Seq<char>) -> (BuilderV, Seq<char>) {
    let l = next_count(st.label);
    (
        BuilderV { blocks: st.blocks, current: st.current, temp: st.temp, label: l, locals: st.locals, scope: st.scope, locals_ty: st.locals_ty },
        prefix + nat_decimal(l as nat),
    )
}

pub open spec fn with_blocks(st: BuilderV, blocks: Seq<BasicBlockV>) -> BuilderV {
    BuilderV { blocks, current: st.current, temp: st.temp, label: st.label, locals: st.locals, scope: st.scope, locals_ty: st.locals_ty }
}

/// Appends an empty block (ending in `ret i32 0` until it is given a terminator).
pub open spec fn b_new_block(st: BuilderV, name: Seq<char>) -> BuilderV {
    with_blocks(st, st.blocks.push(BasicBlockV { name, instrs: seq![], term: TerminatorV::Ret { value: "0"@ } }))
}

pub open spec fn b_set_current(st: BuilderV, idx: int) -> BuilderV {
    BuilderV { blocks: st.blocks, current: idx, temp: st.temp, label: st.label, locals: st.locals, scope: st.scope, locals_ty: st.locals_ty }
}

/// Appends an instruction to the current block.
pub open spec fn b_push(st: BuilderV, i: InstrV) -> BuilderV {
    let b = st.blocks[st.current];
    with_blocks(st, st.blocks.update(st.current, BasicBlockV { name: b.name, instrs: b.instrs.push(i), term: b.term }))
}

/// Replaces the terminator of the current block.
pub open spec fn b_set_term(st: BuilderV, t: TerminatorV) -> BuilderV {
    let b = st.blocks[st.current];
    with_blocks(st, st.blocks.update(st.current, BasicBlockV { name: b.name, instrs: b.instrs, term: t }))
}

/// The stack slot of a variable: `%<name>.addr`.
pub open spec fn addr_text(name: Seq<char>) -> Seq<char> {
    "%"@ + name + ".addr"@
}

/// The slot for a new binding of `name`, given the names of the slots made
/// so far and the bindings in force: `%<name>.addr`, unless a binding of the
/// name that lives in a slot is in force and the new one shadows it; then
/// `%<name>.addr<k>`, `k` the number of slots made before it.
pub open spec fn slot_text(made: Seq<Seq<char>>, scope: Seq<(Seq<char>, Seq<char>)>, name: Seq<char>) -> Seq<char> {
    if lookup_slot(scope, name) is Some {
        addr_text(name) + nat_decimal(made.len())
    } else {
        addr_text(name)
    }
}

/// Whether a new binding of `name` needs a slot made for it (an `alloca`):
/// the name has no slot yet, or the binding shadows one in force.  Otherwise
/// it takes over `%<name>.addr`, whose earlier binding has ended.
pub open spec fn needs_slot(made: Seq<Seq<char>>, scope: Seq<(Seq<char>, Seq<char>)>, name: Seq<char>) -> bool {
    lookup_slot(scope, name) is Some || !made.contains(name)
}

/// The slot of the innermost binding of `n` in force that has one.
pub open spec fn lookup_slot(scope: Seq<(Seq<char>, Seq<char>)>, n: Seq<char>) -> Option<Seq<char>>
    decreases scope.len(),
{
    if scope.len() == 0 {
        None
    } else if scope.last().0 == n {
        Some(scope.last().1)
    } else {
        lookup_slot(scope.drop_last(), n)
    }
}

/// The state with the bindings in force put back to `scope` and `tys`:
/// what a block does at its end.
pub open spec fn b_scope(st: BuilderV, scope: Seq<(Seq<char>, Seq<char>)>, tys: Seq<(Seq<char>, Type)>) -> BuilderV {
    BuilderV { blocks: st.blocks, current: st.current, temp: st.temp, label: st.label, locals: st.locals, scope, locals_ty: tys }
}

/// The type of an expression as lowering sees it: from the types of the
/// variables in force and the return types of functions, without checking
/// operands.
pub open spec fn s_type_of(e: ExprV, env: Seq<(Seq<char>, Type)>, funs: Seq<FunSigV>) -> Result<Type, CodegenErrorV>
    decreases e,
{
    match e {
        ExprV::Int(_) => Ok(Type::I32),
        ExprV::Bool(_) => Ok(Type::Bool),
        ExprV::Ident(n) => match lookup_type(env, n) {
            Some(t) => Ok(t),
            None => Err(CodegenErrorV::UnknownIdentifier(n)),
        },
        ExprV::Unary { op, expr } => match s_type_of(*expr, env, funs) {
            Err(x) => Err(x),
            Ok(t) => match op {
                UnaryOp::Neg => Ok(t),
                UnaryOp::Not => Ok(Type::Bool),
            },
        },
        ExprV::Binary { op, lhs, rhs } => match s_type_of(*lhs, env, funs) {
            Err(x) => Err(x),
            Ok(_) => match s_type_of(*rhs, env, funs) {
                Err(x) => Err(x),
                Ok(_) => match op {
                    BinOp::Add | BinOp::Sub | BinOp::Mul | BinOp::Div | BinOp::Rem => Ok(Type::I32),
                    _ => Ok(Type::Bool),
                },
            },
        },
        ExprV::If { then_expr, .. } => s_type_of(*then_expr, env, funs),
        ExprV::Call { name, .. } => match lookup_fun(funs, name) {
            Some(sig) => Ok(sig.ret),
            None => Err(CodegenErrorV::UnknownFunction(name)),
        },
        ExprV::Block { stmts, expr } => match s_type_of_stmts(stmts, env, funs) {
            Err(x) => Err(x),
            Ok(inner) => s_type_of(*expr, inner, funs),
        },
        ExprV::While { .. } => Ok(Type::Unit),
    }
}

pub open spec fn s_type_of_stmts(ss: Seq<StmtV>, env: Seq<(Seq<char>, Type)>, funs: Seq<FunSigV>) -> Result<Seq<(Seq<char>, Type)>, CodegenErrorV>
    decreases ss,
{
    if ss.len() == 0 {
        Ok(env)
    } else {
        match ss[0] {
            StmtV::Let { name, value, .. } => match s_type_of(value, env, funs) {
                Err(x) => Err(x),
                Ok(t) => s_type_of_stmts(ss.drop_first(), env.push((name, t)), funs),
            },
            StmtV::Expr(x) => match s_type_of(x, env, funs) {
                Err(err) => Err(err),
                Ok(_) => s_type_of_stmts(ss.drop_first(), env, funs),
            },
        }
    }
}

/// Lowering's type inference agrees with the type checker: an expression
/// that checks at type `t` in a scope is given type `t` by lowering in the
/// same scope.
pub proof fn law_type_of_agrees_with_check(e: ExprV, env: Seq<(Seq<char>, Type)>, funs: Seq<FunSigV>)
    requires
        s_check(e, env, funs) is Ok,
    ensures
        s_type_of(e, env, funs) == Ok::<Type, CodegenErrorV>(s_check(e, env, funs)->Ok_0),
    decreases e,
{
    match e {
        ExprV::Unary { op, expr } => {
            law_type_of_agrees_with_check(*expr, env, funs);
        },
        ExprV::Binary { op, lhs, rhs } => {
            law_type_of_agrees_with_check(*lhs, env, funs);
            law_type_of_agrees_with_check(*rhs, env, funs);
        },
        ExprV::If { cond, then_expr, else_expr } => {
            law_type_of_agrees_with_check(*then_expr, env, funs);
        },
        ExprV::Block { stmts, expr } => {
            lemma_stmts_types_agree(stmts, env, seq![], funs);
            let inner = s_check_stmts(stmts, env, seq![], funs)->Ok_0;
            law_type_of_agrees_with_check(*expr, inner, funs);
        },
        _ => {},
    }
}

/// The statements of a block that check give lowering the same scope.
pub proof fn lemma_stmts_types_agree(
    ss: Seq<StmtV>,
    env: Seq<(Seq<char>, Type)>,
    defined: Seq<Seq<char>>,
    funs: Seq<FunSigV>,
)
    requires
        s_check_stmts(ss, env, defined, funs) is Ok,
    ensures
        s_type_of_stmts(ss, env, funs)
            == Ok::<Seq<(Seq<char>, Type)>, CodegenErrorV>(s_check_stmts(ss, env, defined, funs)->Ok_0),
    decreases ss,
{
    if ss.len() > 0 {
        match ss[0] {
            StmtV::Let { name, ty, value } => {
                law_type_of_agrees_with_check(value, env, funs);
                lemma_stmts_types_agree(ss.drop_first(), env.push((name, ty)), defined.push(name), funs);
            },
            StmtV::Expr(x) => {
                law_type_of_agrees_with_check(x, env, funs);
                lemma_stmts_types_agree(ss.drop_first(), env, defined, funs);
            },
        }
    }
}

/// The instruction computing `dest = lhs op rhs` (equality compares at the
/// type of the left operand).
pub open spec fn s_binary_instr(
    op: BinOp,
    dest: Seq<char>,
    l: Seq<char>,
    r: Seq<char>,
    lhs: ExprV,
    env: Seq<(Seq<char>, Type)>,
    funs: Seq<FunSigV>,
) -> Result<InstrV, CodegenErrorV> {
    match op {
        BinOp::Add => Ok(InstrV::Add { dest, lhs: l, rhs: r }),
        BinOp::Sub => Ok(InstrV::Sub { dest, lhs: l, rhs: r }),
        BinOp::Mul => Ok(InstrV::Mul { dest, lhs: l, rhs: r }),
        BinOp::Div => Ok(InstrV::SDiv { dest, lhs: l, rhs: r }),
        BinOp::Rem => Ok(InstrV::SRem { dest, lhs: l, rhs: r }),
        BinOp::Lt => Ok(InstrV::ICmp { dest, pred: "slt"@, ty: Type::I32, lhs: l, rhs: r }),
        BinOp::Le => Ok(InstrV::ICmp { dest, pred: "sle"@, ty: Type::I32, lhs: l, rhs: r }),
        BinOp::Gt => Ok(InstrV::ICmp { dest, pred: "sgt"@, ty: Type::I32, lhs: l, rhs: r }),
        BinOp::Ge => Ok(InstrV::ICmp { dest, pred: "sge"@, ty: Type::I32, lhs: l, rhs: r }),
        BinOp::Eq => match s_type_of(lhs, env, funs) {
            Err(x) => Err(x),
            Ok(ty) => Ok(InstrV::ICmp { dest, pred: "eq"@, ty, lhs: l, rhs: r }),
        },
        BinOp::Ne => match s_type_of(lhs, env, funs) {
            Err(x) => Err(x),
            Ok(ty) => Ok(InstrV::ICmp { dest, pred: "ne"@, ty, lhs: l, rhs: r }),
        },
        BinOp::And => Ok(InstrV::And { dest, lhs: l, rhs: r }),
        BinOp::Or => Ok(InstrV::Or { dest, lhs: l, rhs: r }),
    }
}

/// Call arguments paired with the callee's parameter types (`i32` where
/// the callee or the parameter is unknown).
pub open spec fn typed_call_args(ptys: Seq<Type>, vals: Seq<Seq<char>>) -> Seq<(Type, Seq<char>)> {
    Seq::new(vals.len(), |i: int| (if i < ptys.len() { ptys[i] } else { Type::I32 }, vals[i]))
}

pub open spec fn prefix_vals(p: Seq<Seq<char>>, r: Result<(BuilderV, Seq<Seq<char>>), CodegenErrorV>) -> Result<(BuilderV, Seq<Seq<char>>), CodegenErrorV> {
    match r {
        Ok((st, vs)) => Ok((st, p + vs)),
        Err(x) => Err(x),
    }
}

/// Lowers an expression into the current block; yields the new state and
/// the IR value of the expression.
pub open spec fn s_emit(funs: Seq<FunSigV>, st: BuilderV, e: ExprV) -> Result<(BuilderV, Seq<char>), CodegenErrorV>
    decreases e, 1int,
{
    match e {
        ExprV::Int(v) => Ok((st, int_decimal(v as int))),
        ExprV::Bool(b) => Ok((st, if b { "true"@ } else { "false"@ })),
        ExprV::Ident(n) => match lookup_slot(st.scope, n) {
            Some(ptr) => match lookup_type(st.locals_ty, n) {
                None => Err(CodegenErrorV::UnknownIdentifier(n)),
                Some(ty) => {
                    let (st1, d) = b_temp(st);
                    Ok((b_push(st1, InstrV::Load { dest: d, ty, ptr }), d))
                },
            },
            None => Ok((st, "%"@ + n)),
        },
        ExprV::Binary { op, lhs, rhs } => match s_emit(funs, st, *lhs) {
            Err(x) => Err(x),
            Ok((st1, l)) => match s_emit(funs, st1, *rhs) {
                Err(x) => Err(x),
                Ok((st2, r)) => {
                    let (st3, d) = b_temp(st2);
                    match s_binary_instr(op, d, l, r, *lhs, st3.locals_ty, funs) {
                        Err(x) => Err(x),
                        Ok(i) => Ok((b_push(st3, i), d)),
                    }
                },
            },
        },
        ExprV::Unary { op, expr } => match s_emit(funs, st, *expr) {
            Err(x) => Err(x),
            Ok((st1, v)) => {
                let (st2, d) = b_temp(st1);
                let i = match op {
                    UnaryOp::Neg => InstrV::Sub { dest: d, lhs: "0"@, rhs: v },
                    UnaryOp::Not => InstrV::Xor { dest: d, lhs: v, rhs: "true"@ },
                };
                Ok((b_push(st2, i), d))
            },
        },
        ExprV::Call { name, args } => match s_emit_args(funs, st, args) {
            Err(x) => Err(x),
            Ok((st1, vals)) => {
                let (st2, d) = b_temp(st1);
                let sig = lookup_fun(funs, name);
                let ret_ty = match sig { Some(s) => s.ret, None => Type::I32 };
                let ptys = match sig { Some(s) => s.params, None => seq![] };
                Ok((
                    b_push(st2, InstrV::Call { dest: Some(d), ret_ty, func: name, args: typed_call_args(ptys, vals) }),
                    d,
                ))
            },
        },
        ExprV::If { cond, then_expr, else_expr } => match s_emit(funs, st, *cond) {
            Err(x) => Err(x),
            Ok((st1, c)) => {
                let (st2, tn) = b_label(st1, "then"@);
                let (st3, en) = b_label(st2, "else"@);
                let (st4, mn) = b_label(st3, "merge"@);
                let ti = st4.blocks.len() as int;
                let st5 = b_new_block(st4, tn);
                let ei = st5.blocks.len() as int;
                let st6 = b_new_block(st5, en);
                let mi = st6.blocks.len() as int;
                let st7 = b_new_block(st6, mn);
                let st8 = b_set_term(st7, TerminatorV::CondBr { cond: c, then_dest: tn, else_dest: en });
                match s_emit(funs, b_set_current(st8, ti), *then_expr) {
                    Err(x) => Err(x),
                    Ok((st9, tv)) => {
                        let st10 = b_set_current(b_set_term(st9, TerminatorV::Br { dest: mn }), ei);
                        match s_emit(funs, st10, *else_expr) {
                            Err(x) => Err(x),
                            Ok((st11, ev)) => {
                                let st12 = b_set_current(b_set_term(st11, TerminatorV::Br { dest: mn }), mi);
                                let (st13, d) = b_temp(st12);
                                match s_type_of(*then_expr, st13.locals_ty, funs) {
                                    Err(x) => Err(x),
                                    Ok(pty) => Ok((
                                        b_push(st13, InstrV::Phi {
                                            dest: d,
                                            ty: pty,
                                            incomings: seq![(tv, st9.blocks[st9.current].name), (ev, st11.blocks[st11.current].name)],
                                        }),
                                        d,
                                    )),
                                }
                            },
                        }
                    },
                }
            },
        },
        ExprV::While { cond, body } => {
            let (st1, cn) = b_label(st, "cond"@);
            let (st2, bn) = b_label(st1, "body"@);
            let (st3, xn) = b_label(st2, "exit"@);
            let ci = st3.blocks.len() as int;
            let st4 = b_new_block(st3, cn);
            let bi = st4.blocks.len() as int;
            let st5 = b_new_block(st4, bn);
            let xi = st5.blocks.len() as int;
            let st6 = b_new_block(st5, xn);
            let st7 = b_set_current(b_set_term(st6, TerminatorV::Br { dest: cn }), ci);
            match s_emit(funs, st7, *cond) {
                Err(x) => Err(x),
                Ok((st8, c)) => {
                    let st9 = b_set_current(b_set_term(st8, TerminatorV::CondBr { cond: c, then_dest: bn, else_dest: xn }), bi);
                    match s_emit(funs, st9, *body) {
                        Err(x) => Err(x),
                        Ok((st10, _)) => Ok((b_set_current(b_set_term(st10, TerminatorV::Br { dest: cn }), xi), "0"@)),
                    }
                },
            }
        },
        ExprV::Block { stmts, expr } => match s_emit_stmts(funs, st, stmts) {
            Err(x) => Err(x),
            Ok(st1) => match s_emit(funs, st1, *expr) {
                Err(x) => Err(x),
                Ok((st2, v)) => Ok((b_scope(st2, st.scope, st.locals_ty), v)),
            },
        },
    }
}

/// Lowers call arguments left to right.
pub open spec fn s_emit_args(funs: Seq<FunSigV>, st: BuilderV, args: Seq<ExprV>) -> Result<(BuilderV, Seq<Seq<char>>), CodegenErrorV>
    decreases args, 1int,
{
    if args.len() == 0 {
        Ok((st, seq![]))
    } else {
        match s_emit(funs, st, args[0]) {
            Err(x) => Err(x),
            Ok((st1, v)) => prefix_vals(seq![v], s_emit_args(funs, st1, args.drop_first())),
        }
    }
}

/// A stack slot `ptr` made for `name`: its `alloca` placed first in the
/// entry block.
pub open spec fn s_make_slot(st: BuilderV, name: Seq<char>, ptr: Seq<char>, ty: Type) -> BuilderV {
    let b0 = st.blocks[0];
    BuilderV {
        blocks: st.blocks.update(0, BasicBlockV {
            name: b0.name,
            instrs: seq![InstrV::Alloca { dest: ptr, ty }] + b0.instrs,
            term: b0.term,
        }),
        current: st.current,
        temp: st.temp,
        label: st.label,
        locals: st.locals.push(name),
        scope: st.scope,
        locals_ty: st.locals_ty,
    }
}

/// `name` bound to the slot `ptr` and the type `ty`.
pub open spec fn s_bind(st: BuilderV, name: Seq<char>, ptr: Seq<char>, ty: Type) -> BuilderV {
    BuilderV {
        blocks: st.blocks,
        current: st.current,
        temp: st.temp,
        label: st.label,
        locals: st.locals,
        scope: st.scope.push((name, ptr)),
        locals_ty: st.locals_ty.push((name, ty)),
    }
}

/// The state after a `let`: the initializer lowered with the bindings in
/// force before the `let`; then the name's slot, made (its `alloca` placed
/// first in the entry block) when `needs_slot` says so; the value stored
/// into it; and the name bound to that slot and to the initializer's type.
pub open spec fn s_emit_let(funs: Seq<FunSigV>, st: BuilderV, name: Seq<char>, value: ExprV) -> Result<BuilderV, CodegenErrorV>
    decreases value, 2int,
{
    match s_type_of(value, st.locals_ty, funs) {
        Err(x) => Err(x),
        Ok(vty) => match s_emit(funs, st, value) {
            Err(x) => Err(x),
            Ok((st1, v)) => {
                let ptr = slot_text(st1.locals, st1.scope, name);
                let st2 = if needs_slot(st1.locals, st1.scope, name) {
                    s_make_slot(st1, name, ptr, vty)
                } else {
                    st1
                };
                let st3 = s_bind(st2, name, ptr, vty);
                Ok(b_push(st3, InstrV::Store { ty: vty, value: v, ptr }))
            },
        },
    }
}

/// Lowers one statement.
pub open spec fn s_emit_stmt(funs: Seq<FunSigV>, st: BuilderV, s: StmtV) -> Result<BuilderV, CodegenErrorV>
    decreases s, 3int,
{
    match s {
        StmtV::Let { name, value, .. } => s_emit_let(funs, st, name, value),
        StmtV::Expr(x) => match s_emit(funs, st, x) {
            Err(err) => Err(err),
            Ok((st1, _)) => Ok(st1),
        },
    }
}

/// Lowers the statements of a block in order.
pub open spec fn s_emit_stmts(funs: Seq<FunSigV>, st: BuilderV, ss: Seq<StmtV>) -> Result<BuilderV, CodegenErrorV>
    decreases ss, 1int,
{
    if ss.len() == 0 {
        Ok(st)
    } else {
        match s_emit_stmt(funs, st, ss[0]) {
            Err(x) => Err(x),
            Ok(st1) => s_emit_stmts(funs, st1, ss.drop_first()),
        }
    }
}

/// The builder state at the start of a function: one empty `entry` block
/// and the parameters' types in force.
pub open spec fn s_initial_state(params: Seq<AstParamV>) -> BuilderV {
    BuilderV {
        blocks: seq![BasicBlockV { name: "entry"@, instrs: seq![], term: TerminatorV::Ret { value: "0"@ } }],
        current: 0,
        temp: 0,
        label: 0,
        locals: seq![],
        scope: seq![],
        locals_ty: params.map_values(|q: AstParamV| (q.name, q.ty)),
    }
}

/// A lowered function: the body lowered from the initial state, its value
/// returned from the block where lowering ends.
pub open spec fn s_lower_function(f: FunctionV, funs: Seq<FunSigV>) -> Result<crate::compiler::ir::FunctionV, CodegenErrorV> {
    match s_emit(funs, s_initial_state(f.params), f.body) {
        Err(x) => Err(x),
        Ok((st, v)) => Ok(crate::compiler::ir::FunctionV {
            name: f.name,
            params: f.params.map_values(|q: AstParamV| ParamV { name: q.name, ty: q.ty }),
            return_type: f.return_type,
            blocks: b_set_term(st, TerminatorV::Ret { value: v }).blocks,
        }),
    }
}

pub open spec fn s_lower_functions(fs: Seq<FunctionV>, i: int, funs: Seq<FunSigV>) -> Result<Seq<crate::compiler::ir::FunctionV>, CodegenErrorV>
    decreases fs.len() - i,
{
    if i < 0 || i >= fs.len() {
        Ok(seq![])
    } else {
        match s_lower_function(fs[i], funs) {
            Err(x) => Err(x),
            Ok(f) => match s_lower_functions(fs, i + 1, funs) {
                Err(x) => Err(x),
                Ok(rest) => Ok(seq![f] + rest),
            },
        }
    }
}

/// The module that a program lowers to: each function in order.
pub open spec fn spec_lower(p: ProgramV) -> Result<ModuleV, CodegenErrorV> {
    match s_lower_functions(p.functions, 0, program_sigs(p)) {
        Err(x) => Err(x),
        Ok(fs) => Ok(ModuleV { functions: fs }),
    }
}

pub open spec fn vals_v(v: Seq<String>) -> Seq<Seq<char>> {
    v.map_values(|x: String| x@)
}

pub proof fn lemma_prefix_vals(p: Seq<Seq<char>>, q: Seq<Seq<char>>, r: Result<(BuilderV, Seq<Seq<char>>), CodegenErrorV>)
    ensures
        prefix_vals(p, prefix_vals(q, r)) == prefix_vals(p + q, r),
{
    if let Ok((st, vs)) = r {
        assert(p + (q + vs) =~= (p + q) + vs);
    }
}

fn temp_string(n: usize) -> (r: String)
    ensures
        r@ == "%t"@ + nat_decimal(n as nat),
{
    let mut s = String::from_str("%t");
    push_decimal(&mut s, n as u64);
    s
}

fn label_string(prefix: &str, n: usize) -> (r: String)
    ensures
        r@ == prefix@ + nat_decimal(n as nat),
{
    let mut s = String::from_str(prefix);
    push_decimal(&mut s, n as u64);
    s
}

fn addr_string(name: &String) -> (r: String)
    ensures
        r@ == addr_text(name@),
{
    let mut s = String::from_str("%");
    s.append(name.as_str());
    s.append(".addr");
    s
}

fn local_string(name: &String) -> (r: String)
    ensures
        r@ == "%"@ + name@,
{
    let mut s = String::from_str("%");
    s.append(name.as_str());
    s
}

pub open spec fn scope_v(sc: Seq<(String, String)>) -> Seq<(Seq<char>, Seq<char>)> {
    sc.map_values(|b: (String, String)| (b.0@, b.1@))
}

/// The slot of the innermost binding of `n` in `scope`.
fn find_slot(scope: &Vec<(String, String)>, n: &String) -> (r: Option<String>)
    ensures
        match lookup_slot(scope_v(scope@), n@) {
            Some(p) => r is Some && r->Some_0@ == p,
            None => r is None,
        },
{
    let mut j: usize = scope.len();
    assert(scope_v(scope@).subrange(0, j as int) =~= scope_v(scope@));
    while j > 0
        invariant
            j <= scope@.len(),
            lookup_slot(scope_v(scope@), n@) == lookup_slot(scope_v(scope@).subrange(0, j as int), n@),
        decreases j,
    {
        let ghost sub = scope_v(scope@).subrange(0, j as int);
        assert(sub.drop_last() =~= scope_v(scope@).subrange(0, j - 1));
        if scope[j - 1].0 == *n {
            return Some(scope[j - 1].1.clone());
        }
        j = j - 1;
    }
    None
}

/// A copy of the bindings in `scope`.
fn copy_scope(scope: &Vec<(String, String)>) -> (r: Vec<(String, String)>)
    ensures
        scope_v(r@) == scope_v(scope@),
{
    let mut r: Vec<(String, String)> = Vec::new();
    let mut i: usize = 0;
    while i < scope.len()
        invariant
            i <= scope@.len(),
            r@.len() == i,
            forall|k: int| 0 <= k < i ==> #[trigger] r@[k].0@ == scope@[k].0@ && r@[k].1@ == scope@[k].1@,
        decreases scope@.len() - i,
    {
        r.push((scope[i].0.clone(), scope[i].1.clone()));
        i = i + 1;
    }
    assert(scope_v(r@) =~= scope_v(scope@));
    r
}

/// The slot for a new binding of `name`; see `slot_text`.
fn slot_string(made: &Vec<String>, scope: &Vec<(String, String)>, name: &String) -> (r: String)
    ensures
        r@ == slot_text(names_v(made@), scope_v(scope@), name@),
{
    let mut s = addr_string(name);
    if find_slot(scope, name).is_some() {
        push_decimal(&mut s, made.len() as u64);
    }
    s
}

/// Builds the blocks of one function.
struct FunctionBuilder<'a> {
    blocks: Vec<BasicBlock>,
    current: usize,
    temp: usize,
    label: usize,
    locals: Vec<String>,
    scope: Vec<(String, String)>,
    locals_ty: Vec<(String, Type)>,
    fun_types: &'a Vec<FunSig>,
}

spec fn emit_ok(r: Result<String, CodegenError>, fin: FunctionBuilder, s: Result<(BuilderV, Seq<char>), CodegenErrorV>) -> bool {
    match s {
        Ok((st, v)) => r is Ok && r->Ok_0@ == v && fin.bv() == st && fin.wf(),
        Err(x) => r is Err && cerr_v(r->Err_0) == x,
    }
}

spec fn unit_ok(r: Result<(), CodegenError>, fin: FunctionBuilder, s: Result<BuilderV, CodegenErrorV>) -> bool {
    match s {
        Ok(st) => r is Ok && fin.bv() == st && fin.wf(),
        Err(x) => r is Err && cerr_v(r->Err_0) == x,
    }
}

spec fn type_ok(r: Result<Type, CodegenError>, s: Result<Type, CodegenErrorV>) -> bool {
    match s {
        Ok(t) => r == Ok::<Type, CodegenError>(t),
        Err(x) => r is Err && cerr_v(r->Err_0) == x,
    }
}

impl<'a> FunctionBuilder<'a> {
    spec fn bv(&self) -> BuilderV {
        BuilderV {
            blocks: blocks_v(self.blocks@),
            current: self.current as int,
            temp: self.temp as int,
            label: self.label as int,
            locals: names_v(self.locals@),
            scope: scope_v(self.scope@),
            locals_ty: env_v(self.locals_ty@),
        }
    }

    spec fn wf(&self) -> bool {
        self.blocks@.len() >= 1 && self.current < self.blocks@.len()
    }

    spec fn funs(&self) -> Seq<FunSigV> {
        sigs_v(self.fun_types@)
    }

    fn new(fun_types: &'a Vec<FunSig>) -> (b: Self)
        ensures
            b.fun_types == fun_types,
            b.blocks@.len() == 0,
            b.current == 0,
            b.temp == 0,
            b.label == 0,
            b.locals@.len() == 0,
            b.scope@.len() == 0,
            b.locals_ty@.len() == 0,
    {
        FunctionBuilder {
            blocks: Vec::new(),
            current: 0,
            temp: 0,
            label: 0,
            locals: Vec::new(),
            scope: Vec::new(),
            locals_ty: Vec::new(),
            fun_types,
        }
    }

    fn new_block(&mut self, name: &str) -> (idx: usize)
        ensures
            idx == old(self).blocks@.len(),
            final(self).bv() == b_new_block(old(self).bv(), name@),
            final(self).blocks@.len() == old(self).blocks@.len() + 1,
            final(self).current == old(self).current,
            final(self).fun_types == old(self).fun_types,
            final(self).locals == old(self).locals,
            final(self).scope == old(self).scope,
            final(self).locals_ty == old(self).locals_ty,
            final(self).temp == old(self).temp,
            final(self).label == old(self).label,
    {
        let idx = self.blocks.len();
        let b = BasicBlock { name: String::from_str(name), instrs: Vec::new(), term: Terminator::Ret { value: String::from_str("0") } };
        let ghost old_blocks = self.blocks@;
        self.blocks.push(b);
        proof {
            assert(instrs_v(b.instrs@) =~= seq![]);
            assert(blocks_v(self.blocks@) =~= blocks_v(old_blocks).push(b@));
            assert(self.bv() =~~= b_new_block(old(self).bv(), name@));
        }
        idx
    }

    fn set_current(&mut self, idx: usize)
        ensures
            final(self).bv() == b_set_current(old(self).bv(), idx as int),
            final(self).blocks == old(self).blocks,
            final(self).current == idx,
            final(self).fun_types == old(self).fun_types,
            final(self).locals == old(self).locals,
            final(self).scope == old(self).scope,
            final(self).locals_ty == old(self).locals_ty,
            final(self).temp == old(self).temp,
            final(self).label == old(self).label,
    {
        self.current = idx;
        assert(self.bv() =~~= b_set_current(old(self).bv(), idx as int));
    }

    /// Appends an instruction to the current block.
    fn push_instr(&mut self, instr: Instr)
        requires
            old(self).wf(),
        ensures
            final(self).bv() == b_push(old(self).bv(), instr@),
            final(self).wf(),
            final(self).blocks@.len() == old(self).blocks@.len(),
            final(self).current == old(self).current,
            final(self).fun_types == old(self).fun_types,
    {
        let cur = self.current;
        let ghost old_blocks = self.blocks@;
        let mut b = self.blocks.remove(cur);
        let ghost old_instrs = b.instrs@;
        b.instrs.push(instr);
        self.blocks.insert(cur, b);
        proof {
            assert(instrs_v(b.instrs@) =~= instrs_v(old_instrs).push(instr@));
            assert(self.blocks@ =~= old_blocks.update(cur as int, b));
            assert(blocks_v(self.blocks@) =~= blocks_v(old_blocks).update(cur as int, b@));
            assert(self.bv() =~~= b_push(old(self).bv(), instr@));
        }
    }

    fn set_terminator(&mut self, term: Terminator)
        requires
            old(self).wf(),
        ensures
            final(self).bv() == b_set_term(old(self).bv(), term@),
            final(self).wf(),
            final(self).blocks@.len() == old(self).blocks@.len(),
            final(self).current == old(self).current,
            final(self).fun_types == old(self).fun_types,
    {
        let cur = self.current;
        let ghost old_blocks = self.blocks@;
        let mut b = self.blocks.remove(cur);
        b.term = term;
        self.blocks.insert(cur, b);
        proof {
            assert(self.blocks@ =~= old_blocks.update(cur as int, b));
            assert(blocks_v(self.blocks@) =~= blocks_v(old_blocks).update(cur as int, b@));
            assert(self.bv() =~~= b_set_term(old(self).bv(), term@));
        }
    }

    fn new_temp(&mut self) -> (r: String)
        ensures
            (final(self).bv(), r@) == b_temp(old(self).bv()),
            final(self).blocks == old(self).blocks,
            final(self).current == old(self).current,
            final(self).fun_types == old(self).fun_types,
    {
        self.temp = if self.temp == usize::MAX { 0 } else { self.temp + 1 };
        let r = temp_string(self.temp);
        assert(self.bv() =~~= b_temp(old(self).bv()).0);
        r
    }

    fn new_label(&mut self, prefix: &str) -> (r: String)
        ensures
            (final(self).bv(), r@) == b_label(old(self).bv(), prefix@),
            final(self).blocks == old(self).blocks,
            final(self).current == old(self).current,
            final(self).fun_types == old(self).fun_types,
    {
        self.label = if self.label == usize::MAX { 0 } else { self.label + 1 };
        let r = label_string(prefix, self.label);
        assert(self.bv() =~~= b_label(old(self).bv(), prefix@).0);
        r
    }

    fn type_of_ident(&self, name: &String) -> (r: Result<Type, CodegenError>)
        ensures
            type_ok(r, s_type_of(ExprV::Ident(name@), self.bv().locals_ty, self.funs())),
    {
        match lookup_env(&self.locals_ty, name) {
            Some(t) => Ok(t),
            None => Err(CodegenError::UnknownIdentifier(name.clone())),
        }
    }

    fn type_of_expr(&self, expr: &Expr) -> (r: Result<Type, CodegenError>)
        ensures
            type_ok(r, s_type_of(expr_v(*expr), self.bv().locals_ty, self.funs())),
    {
        self.type_of_expr_scoped(expr, &self.locals_ty)
    }

    #[verifier::loop_isolation(false)]
    fn type_of_expr_scoped(&self, expr: &Expr, locals: &Vec<(String, Type)>) -> (r: Result<Type, CodegenError>)
        ensures
            type_ok(r, s_type_of(expr_v(*expr), env_v(locals@), self.funs())),
        decreases expr,
    {
        match expr {
            Expr::Int(_) => Ok(Type::I32),
            Expr::Bool(_) => Ok(Type::Bool),
            Expr::Ident(name) => match lookup_env(locals, name) {
                Some(t) => Ok(t),
                None => Err(CodegenError::UnknownIdentifier(name.clone())),
            },
            Expr::Unary { op, expr: inner } => {
                let t = self.type_of_expr_scoped(inner, locals)?;
                match op {
                    UnaryOp::Neg => Ok(t),
                    UnaryOp::Not => Ok(Type::Bool),
                }
            },
            Expr::Binary { op, lhs, rhs } => {
                let _ = self.type_of_expr_scoped(lhs, locals)?;
                let _ = self.type_of_expr_scoped(rhs, locals)?;
                match op {
                    BinOp::Add | BinOp::Sub | BinOp::Mul | BinOp::Div | BinOp::Rem => Ok(Type::I32),
                    _ => Ok(Type::Bool),
                }
            },
            Expr::If { then_expr, .. } => self.type_of_expr_scoped(then_expr, locals),
            Expr::Call { name, .. } => match lookup_sig(self.fun_types, name) {
                Some(k) => Ok(self.fun_types[k].ret),
                None => Err(CodegenError::UnknownFunction(name.clone())),
            },
            Expr::Block { stmts, expr: tail } => {
                let mut scoped = copy_env(locals);
                let ghost ssv = stmts_v(stmts@);
                proof {
                    lemma_stmts_v_index(stmts@);
                    assert(ssv.subrange(0, ssv.len() as int) =~= ssv);
                }
                let mut i: usize = 0;
                while i < stmts.len()
                    invariant
                        i <= stmts@.len(),
                        ssv == stmts_v(stmts@),
                        ssv.len() == stmts@.len(),
                        forall|j: int| 0 <= j < stmts@.len() ==> #[trigger] ssv[j] == stmt_v(stmts@[j]),
                        s_type_of_stmts(ssv, env_v(locals@), self.funs()) == s_type_of_stmts(
                            ssv.subrange(i as int, ssv.len() as int),
                            env_v(scoped@),
                            self.funs(),
                        ),
                    decreases stmts@.len() - i,
                {
                    let ghost sa = ssv.subrange(i as int, ssv.len() as int);
                    assert(sa[0] == ssv[i as int]);
                    assert(sa.drop_first() =~= ssv.subrange(i + 1, ssv.len() as int));
                    match &stmts[i] {
                        Stmt::Let { name, value, .. } => {
                            let t = self.type_of_expr_scoped(value, &scoped)?;
                            let ghost old_scoped = scoped@;
                            scoped.push((name.clone(), t));
                            assert(env_v(scoped@) =~= env_v(old_scoped).push((name@, t)));
                        },
                        Stmt::Expr(x) => {
                            let _ = self.type_of_expr_scoped(x, &scoped)?;
                        },
                    }
                    i = i + 1;
                }
                assert(ssv.subrange(i as int, ssv.len() as int) =~= seq![]);
                self.type_of_expr_scoped(tail, &scoped)
            },
            Expr::While { .. } => Ok(Type::Unit),
        }
    }

    fn emit_expr(&mut self, expr: &Expr) -> (r: Result<String, CodegenError>)
        requires
            old(self).wf(),
        ensures
            final(self).fun_types == old(self).fun_types,
            emit_ok(r, *final(self), s_emit(old(self).funs(), old(self).bv(), expr_v(*expr))),
            r is Ok ==> final(self).blocks@.len() >= old(self).blocks@.len(),
        decreases expr, 1int,
    {
        match expr {
            Expr::Int(v) => {
                let mut s = String::new();
                push_int_decimal(&mut s, *v as i64);
                assert(s@ =~= int_decimal(*v as int));
                Ok(s)
            },
            Expr::Bool(b) => Ok(if *b { String::from_str("true") } else { String::from_str("false") }),
            Expr::Ident(name) => {
                match find_slot(&self.scope, name) {
                    Some(ptr) => {
                        let ty = self.type_of_ident(name)?;
                        let dest = self.new_temp();
                        self.push_instr(Instr::Load { dest: dest.clone(), ty, ptr });
                        Ok(dest)
                    },
                    None => Ok(local_string(name)),
                }
            },
            Expr::Binary { .. } => self.emit_binary(expr),
            Expr::Unary { .. } => self.emit_unary(expr),
            Expr::Call { .. } => self.emit_call(expr),
            Expr::If { .. } => self.emit_if(expr),
            Expr::While { .. } => self.emit_while(expr),
            Expr::Block { .. } => self.emit_block(expr),
        }
    }

    fn emit_binary(&mut self, expr: &Expr) -> (r: Result<String, CodegenError>)
        requires
            old(self).wf(),
            expr is Binary,
        ensures
            final(self).fun_types == old(self).fun_types,
            emit_ok(r, *final(self), s_emit(old(self).funs(), old(self).bv(), expr_v(*expr))),
            r is Ok ==> final(self).blocks@.len() >= old(self).blocks@.len(),
        decreases expr, 0int,
    {
        match expr {
            Expr::Binary { op, lhs, rhs } => {
                let l = self.emit_expr(lhs)?;
                let r = self.emit_expr(rhs)?;
                let dest = self.new_temp();
                let instr = match op {
                    BinOp::Add => Instr::Add { dest: dest.clone(), lhs: l, rhs: r },
                    BinOp::Sub => Instr::Sub { dest: dest.clone(), lhs: l, rhs: r },
                    BinOp::Mul => Instr::Mul { dest: dest.clone(), lhs: l, rhs: r },
                    BinOp::Div => Instr::SDiv { dest: dest.clone(), lhs: l, rhs: r },
                    BinOp::Rem => Instr::SRem { dest: dest.clone(), lhs: l, rhs: r },
                    BinOp::Lt => Instr::ICmp { dest: dest.clone(), pred: String::from_str("slt"), ty: Type::I32, lhs: l, rhs: r },
                    BinOp::Le => Instr::ICmp { dest: dest.clone(), pred: String::from_str("sle"), ty: Type::I32, lhs: l, rhs: r },
                    BinOp::Gt => Instr::ICmp { dest: dest.clone(), pred: String::from_str("sgt"), ty: Type::I32, lhs: l, rhs: r },
                    BinOp::Ge => Instr::ICmp { dest: dest.clone(), pred: String::from_str("sge"), ty: Type::I32, lhs: l, rhs: r },
                    BinOp::Eq => {
                        let ty = self.type_of_expr(lhs)?;
                        Instr::ICmp { dest: dest.clone(), pred: String::from_str("eq"), ty, lhs: l, rhs: r }
                    },
                    BinOp::Ne => {
                        let ty = self.type_of_expr(lhs)?;
                        Instr::ICmp { dest: dest.clone(), pred: String::from_str("ne"), ty, lhs: l, rhs: r }
                    },
                    BinOp::And => Instr::And { dest: dest.clone(), lhs: l, rhs: r },
                    BinOp::Or => Instr::Or { dest: dest.clone(), lhs: l, rhs: r },
                };
                self.push_instr(instr);
                Ok(dest)
            },
            _ => Ok(String::new()),
        }
    }

    fn emit_unary(&mut self, expr: &Expr) -> (r: Result<String, CodegenError>)
        requires
            old(self).wf(),
            expr is Unary,
        ensures
            final(self).fun_types == old(self).fun_types,
            emit_ok(r, *final(self), s_emit(old(self).funs(), old(self).bv(), expr_v(*expr))),
            r is Ok ==> final(self).blocks@.len() >= old(self).blocks@.len(),
        decreases expr, 0int,
    {
        match expr {
            Expr::Unary { op, expr: inner } => {
                let v = self.emit_expr(inner)?;
                let dest = self.new_temp();
                let instr = match op {
                    UnaryOp::Neg => Instr::Sub { dest: dest.clone(), lhs: String::from_str("0"), rhs: v },
                    UnaryOp::Not => Instr::Xor { dest: dest.clone(), lhs: v, rhs: String::from_str("true") },
                };
                self.push_instr(instr);
                Ok(dest)
            },
            _ => Ok(String::new()),
        }
    }

    #[verifier::loop_isolation(false)]
    fn emit_call(&mut self, expr: &Expr) -> (r: Result<String, CodegenError>)
        requires
            old(self).wf(),
            expr is Call,
        ensures
            final(self).fun_types == old(self).fun_types,
            emit_ok(r, *final(self), s_emit(old(self).funs(), old(self).bv(), expr_v(*expr))),
            r is Ok ==> final(self).blocks@.len() >= old(self).blocks@.len(),
        decreases expr, 0int,
    {
        match expr {
            Expr::Call { name, args } => {
                let ghost funs = self.funs();
                let ghost st0 = self.bv();
                let ghost argsv = exprs_v(args@);
                let ghost toks = self.fun_types;
                proof {
                    lemma_exprs_v_index(args@);
                    assert(argsv.subrange(0, argsv.len() as int) =~= argsv);
                    assert(vals_v(Seq::<String>::empty()) =~= seq![]);
                    match s_emit_args(funs, st0, argsv) {
                        Ok((a, vs)) => {
                            assert(Seq::<Seq<char>>::empty() + vs =~= vs);
                        },
                        Err(_) => {},
                    }
                }
                let mut arg_vals: Vec<String> = Vec::new();
                let mut i: usize = 0;
                while i < args.len()
                    invariant
                        i <= args@.len(),
                        self.wf(),
                        self.fun_types == toks,
                        funs == self.funs(),
                        argsv == exprs_v(args@),
                        argsv.len() == args@.len(),
                        forall|j: int| 0 <= j < args@.len() ==> #[trigger] argsv[j] == expr_v(args@[j]),
                        s_emit_args(funs, st0, argsv) == prefix_vals(
                            vals_v(arg_vals@),
                            s_emit_args(funs, self.bv(), argsv.subrange(i as int, argsv.len() as int)),
                        ),
                        self.blocks@.len() >= old(self).blocks@.len(),
                    decreases args@.len() - i,
                {
                    let ghost sa = argsv.subrange(i as int, argsv.len() as int);
                    assert(sa[0] == argsv[i as int]);
                    assert(sa.drop_first() =~= argsv.subrange(i + 1, argsv.len() as int));
                    let v = self.emit_expr(&args[i])?;
                    proof {
                        lemma_prefix_vals(vals_v(arg_vals@), seq![v@], s_emit_args(funs, self.bv(), sa.drop_first()));
                        assert(vals_v(arg_vals@.push(v)) =~= vals_v(arg_vals@) + seq![v@]);
                    }
                    arg_vals.push(v);
                    i = i + 1;
                }
                proof {
                    assert(argsv.subrange(i as int, argsv.len() as int) =~= seq![]);
                    assert(vals_v(arg_vals@) + Seq::<Seq<char>>::empty() =~= vals_v(arg_vals@));
                }
                let dest = self.new_temp();
                let ft: &Vec<FunSig> = self.fun_types;
                let found = lookup_sig(ft, name);
                let ret_ty = match found {
                    Some(k) => ft[k].ret,
                    None => Type::I32,
                };
                let mut args_typed: Vec<(Type, String)> = Vec::new();
                let mut j: usize = 0;
                let ghost ptys = match lookup_fun(funs, name@) {
                    Some(sg) => sg.params,
                    None => Seq::<Type>::empty(),
                };
                let ghost vv = vals_v(arg_vals@);
                while j < arg_vals.len()
                    invariant
                        j <= arg_vals@.len(),
                        vv == vals_v(arg_vals@),
                        funs == sigs_v(ft@),
                        found matches Some(k) ==> k < ft@.len() && lookup_fun(funs, name@) == Some(fun_sig_v(ft@[k as int])),
                        found is None ==> lookup_fun(funs, name@) is None,
                        ptys == match lookup_fun(funs, name@) {
                            Some(sg) => sg.params,
                            None => Seq::<Type>::empty(),
                        },
                        typed_args_v(args_typed@) =~= typed_call_args(ptys, vv).take(j as int),
                    decreases arg_vals@.len() - j,
                {
                    let ty = match found {
                        Some(k) => if j < ft[k].params.len() { ft[k].params[j] } else { Type::I32 },
                        None => Type::I32,
                    };
                    args_typed.push((ty, arg_vals[j].clone()));
                    j = j + 1;
                    assert(typed_args_v(args_typed@) =~= typed_call_args(ptys, vv).take(j as int));
                }
                assert(typed_call_args(ptys, vv).take(j as int) =~= typed_call_args(ptys, vv));
                self.push_instr(Instr::Call { dest: Some(dest.clone()), ret_ty, func: name.clone(), args: args_typed });
                Ok(dest)
            },
            _ => Ok(String::new()),
        }
    }

    fn emit_if(&mut self, expr: &Expr) -> (r: Result<String, CodegenError>)
        requires
            old(self).wf(),
            expr is If,
        ensures
            final(self).fun_types == old(self).fun_types,
            emit_ok(r, *final(self), s_emit(old(self).funs(), old(self).bv(), expr_v(*expr))),
            r is Ok ==> final(self).blocks@.len() >= old(self).blocks@.len(),
        decreases expr, 0int,
    {
        match expr {
            Expr::If { cond, then_expr, else_expr } => {
                let cond_val = self.emit_expr(cond)?;
                let then_name = self.new_label("then");
                let else_name = self.new_label("else");
                let merge_name = self.new_label("merge");
                let then_idx = self.new_block(then_name.as_str());
                let else_idx = self.new_block(else_name.as_str());
                let merge_idx = self.new_block(merge_name.as_str());
                self.set_terminator(Terminator::CondBr {
                    cond: cond_val,
                    then_dest: then_name.clone(),
                    else_dest: else_name.clone(),
                });
                self.set_current(then_idx);
                let then_val = self.emit_expr(then_expr)?;
                let then_end = self.blocks[self.current].name.clone();
                self.set_terminator(Terminator::Br { dest: merge_name.clone() });
                self.set_current(else_idx);
                let else_val = self.emit_expr(else_expr)?;
                let else_end = self.blocks[self.current].name.clone();
                self.set_terminator(Terminator::Br { dest: merge_name.clone() });
                self.set_current(merge_idx);
                let dest = self.new_temp();
                let phi_ty = self.type_of_expr(then_expr)?;
                let mut incomings: Vec<(String, String)> = Vec::new();
                incomings.push((then_val, then_end));
                incomings.push((else_val, else_end));
                proof {
                    assert(incomings_v(incomings@) =~= seq![(incomings@[0].0@, incomings@[0].1@), (incomings@[1].0@, incomings@[1].1@)]);
                }
                self.push_instr(Instr::Phi { dest: dest.clone(), ty: phi_ty, incomings });
                Ok(dest)
            },
            _ => Ok(String::new()),
        }
    }

    fn emit_while(&mut self, expr: &Expr) -> (r: Result<String, CodegenError>)
        requires
            old(self).wf(),
            expr is While,
        ensures
            final(self).fun_types == old(self).fun_types,
            emit_ok(r, *final(self), s_emit(old(self).funs(), old(self).bv(), expr_v(*expr))),
            r is Ok ==> final(self).blocks@.len() >= old(self).blocks@.len(),
        decreases expr, 0int,
    {
        match expr {
            Expr::While { cond, body } => {
                let cond_name = self.new_label("cond");
                let body_name = self.new_label("body");
                let exit_name = self.new_label("exit");
                let cond_idx = self.new_block(cond_name.as_str());
                let body_idx = self.new_block(body_name.as_str());
                let exit_idx = self.new_block(exit_name.as_str());
                self.set_terminator(Terminator::Br { dest: cond_name.clone() });
                self.set_current(cond_idx);
                let cond_val = self.emit_expr(cond)?;
                self.set_terminator(Terminator::CondBr { cond: cond_val, then_dest: body_name, else_dest: exit_name });
                self.set_current(body_idx);
                let _ = self.emit_expr(body)?;
                self.set_terminator(Terminator::Br { dest: cond_name });
                self.set_current(exit_idx);
                Ok(String::from_str("0"))
            },
            _ => Ok(String::new()),
        }
    }

    #[verifier::loop_isolation(false)]
    fn emit_block(&mut self, expr: &Expr) -> (r: Result<String, CodegenError>)
        requires
            old(self).wf(),
            expr is Block,
        ensures
            final(self).fun_types == old(self).fun_types,
            emit_ok(r, *final(self), s_emit(old(self).funs(), old(self).bv(), expr_v(*expr))),
            r is Ok ==> final(self).blocks@.len() >= old(self).blocks@.len(),
        decreases expr, 0int,
    {
        match expr {
            Expr::Block { stmts, expr: tail } => {
                let ghost funs = self.funs();
                let ghost st0 = self.bv();
                let saved_scope = copy_scope(&self.scope);
                let saved_ty = copy_env(&self.locals_ty);
                let ghost ssv = stmts_v(stmts@);
                let ghost toks = self.fun_types;
                proof {
                    lemma_stmts_v_index(stmts@);
                    assert(ssv.subrange(0, ssv.len() as int) =~= ssv);
                }
                let mut i: usize = 0;
                while i < stmts.len()
                    invariant
                        i <= stmts@.len(),
                        self.wf(),
                        self.fun_types == toks,
                        funs == self.funs(),
                        ssv == stmts_v(stmts@),
                        ssv.len() == stmts@.len(),
                        forall|j: int| 0 <= j < stmts@.len() ==> #[trigger] ssv[j] == stmt_v(stmts@[j]),
                        s_emit_stmts(funs, st0, ssv) == s_emit_stmts(funs, self.bv(), ssv.subrange(i as int, ssv.len() as int)),
                        self.blocks@.len() >= old(self).blocks@.len(),
                    decreases stmts@.len() - i,
                {
                    let ghost sa = ssv.subrange(i as int, ssv.len() as int);
                    assert(sa[0] == ssv[i as int]);
                    assert(sa.drop_first() =~= ssv.subrange(i + 1, ssv.len() as int));
                    self.emit_stmt(&stmts[i])?;
                    i = i + 1;
                }
                assert(ssv.subrange(i as int, ssv.len() as int) =~= seq![]);
                let v = self.emit_expr(tail)?;
                self.scope = saved_scope;
                self.locals_ty = saved_ty;
                proof {
                    assert(self.bv() =~~= b_scope(self.bv(), st0.scope, st0.locals_ty));
                }
                Ok(v)
            },
            _ => Ok(String::new()),
        }
    }

    fn emit_stmt(&mut self, stmt: &Stmt) -> (r: Result<(), CodegenError>)
        requires
            old(self).wf(),
        ensures
            final(self).fun_types == old(self).fun_types,
            unit_ok(r, *final(self), s_emit_stmt(old(self).funs(), old(self).bv(), stmt_v(*stmt))),
            r is Ok ==> final(self).blocks@.len() >= old(self).blocks@.len(),
        decreases stmt, 3int,
    {
        match stmt {
            Stmt::Let { name, value, .. } => {
                let val_ty = self.type_of_expr(value)?;
                let val = self.emit_expr(value)?;
                let ptr = slot_string(&self.locals, &self.scope, name);
                let shadows = find_slot(&self.scope, name).is_some();
                if shadows || !contains_name(&self.locals, name) {
                    let ghost old_blocks = self.blocks@;
                    let ghost old_locals = self.locals@;
                    let mut b0 = self.blocks.remove(0);
                    let ghost old_instrs = b0.instrs@;
                    b0.instrs.insert(0, Instr::Alloca { dest: ptr.clone(), ty: val_ty });
                    self.blocks.insert(0, b0);
                    self.locals.push(name.clone());
                    proof {
                        assert(instrs_v(b0.instrs@) =~= seq![InstrV::Alloca { dest: ptr@, ty: val_ty }] + instrs_v(old_instrs));
                        assert(self.blocks@ =~= old_blocks.update(0, b0));
                        assert(blocks_v(self.blocks@) =~= blocks_v(old_blocks).update(0, b0@));
                        assert(names_v(self.locals@) =~= names_v(old_locals).push(name@));
                    }
                }
                let ghost old_scope = self.scope@;
                let ghost old_lt = self.locals_ty@;
                self.scope.push((name.clone(), ptr.clone()));
                self.locals_ty.push((name.clone(), val_ty));
                proof {
                    assert(scope_v(self.scope@) =~= scope_v(old_scope).push((name@, ptr@)));
                    assert(env_v(self.locals_ty@) =~= env_v(old_lt).push((name@, val_ty)));
                }
                self.push_instr(Instr::Store { ty: val_ty, value: val, ptr });
                Ok(())
            },
            Stmt::Expr(e) => {
                let _ = self.emit_expr(e)?;
                Ok(())
            },
        }
    }
}

/// Lowers one function; see `s_lower_function`.
fn lower_function(func: &Function, fun_types: &Vec<FunSig>) -> (r: Result<crate::compiler::ir::Function, CodegenError>)
    ensures
        match s_lower_function(function_v(*func), sigs_v(fun_types@)) {
            Ok(f) => r is Ok && r->Ok_0@ == f,
            Err(x) => r is Err && cerr_v(r->Err_0) == x,
        },
{
    let mut builder = FunctionBuilder::new(fun_types);
    let entry = builder.new_block("entry");
    builder.set_current(entry);
    let ghost pv = params_v(func.params@);
    let mut i: usize = 0;
    while i < func.params.len()
        invariant
            i <= func.params@.len(),
            pv == params_v(func.params@),
            builder.wf(),
            builder.fun_types == fun_types,
            builder.bv().blocks == s_initial_state(pv).blocks,
            builder.current == 0,
            builder.temp == 0,
            builder.label == 0,
            builder.locals@.len() == 0,
            builder.scope@.len() == 0,
            builder.locals_ty@.len() == i,
            forall|k: int| 0 <= k < i ==> #[trigger] binding_v(builder.locals_ty@[k]) == s_initial_state(pv).locals_ty[k],
        decreases func.params@.len() - i,
    {
        builder.locals_ty.push((func.params[i].name.clone(), func.params[i].ty));
        i = i + 1;
    }
    proof {
        assert(builder.bv().locals_ty =~= s_initial_state(pv).locals_ty);
        assert(builder.bv().locals =~= s_initial_state(pv).locals);
        assert(builder.bv().scope =~= s_initial_state(pv).scope);
        assert(builder.bv() =~~= s_initial_state(pv));
    }
    let value = builder.emit_expr(&func.body)?;
    builder.set_terminator(Terminator::Ret { value });
    let mut params: Vec<Param> = Vec::new();
    let mut k: usize = 0;
    while k < func.params.len()
        invariant
            k <= func.params@.len(),
            pv == params_v(func.params@),
            params@.len() == k,
            forall|j: int| #![trigger params@[j]] 0 <= j < k ==> params@[j].name@ == pv[j].name && params@[j].ty == pv[j].ty,
        decreases func.params@.len() - k,
    {
        assert(pv[k as int] == crate::compiler::ast::param_v(func.params@[k as int]));
        let prm = Param { name: func.params[k].name.clone(), ty: func.params[k].ty };
        assert(prm.name@ == pv[k as int].name);
        let ghost before = params@;
        params.push(prm);
        k = k + 1;
    }
    assert(ir_params_v(params@) =~= pv.map_values(|q: AstParamV| ParamV { name: q.name, ty: q.ty }));
    Ok(crate::compiler::ir::Function {
        name: func.name.clone(),
        params,
        return_type: func.return_type,
        blocks: builder.blocks,
    })
}

/// Lowers a program to an IR module, one function after another; see
/// `spec_lower`.
pub fn lower_to_ir(program: Program) -> (r: Result<Module, CodegenError>)
    ensures
        match spec_lower(program_v(program)) {
            Ok(m) => r is Ok && r->Ok_0@ == m,
            Err(x) => r is Err && cerr_v(r->Err_0) == x,
        },
{
    let fun_types = fun_table(&program);
    let ghost pv = program_v(program);
    let ghost funs = program_sigs(pv);
    let mut functions: Vec<crate::compiler::ir::Function> = Vec::new();
    let mut i: usize = 0;
    while i < program.functions.len()
        invariant
            i <= program.functions@.len(),
            pv == program_v(program),
            funs == program_sigs(pv),
            sigs_v(fun_types@) == funs,
            s_lower_functions(pv.functions, 0, funs) == match s_lower_functions(pv.functions, i as int, funs) {
                Ok(rest) => Ok(functions@.map_values(|f: crate::compiler::ir::Function| f@) + rest),
                Err(x) => Err::<Seq<crate::compiler::ir::FunctionV>, CodegenErrorV>(x),
            },
        decreases program.functions@.len() - i,
    {
        let f = lower_function(&program.functions[i], &fun_types)?;
        let ghost before = functions@.map_values(|f: crate::compiler::ir::Function| f@);
        functions.push(f);
        proof {
            assert(functions@.map_values(|f: crate::compiler::ir::Function| f@) =~= before.push(f@));
            match s_lower_functions(pv.functions, i + 1, funs) {
                Ok(rest) => {
                    assert(before + (seq![f@] + rest) =~= before.push(f@) + rest);
                },
                Err(_) => {},
            }
        }
        i = i + 1;
    }
    let m = Module { functions };
    proof {
        assert(functions@.map_values(|f: crate::compiler::ir::Function| f@) + Seq::<crate::compiler::ir::FunctionV>::empty() =~= functions@.map_values(|f: crate::compiler::ir::Function| f@));
    }
    Ok(m)
}

} // verus!
