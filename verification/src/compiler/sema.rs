//! Type checking of a parsed program.
use vstd::prelude::*;
use crate::compiler::ast::{
    BinOp, Expr, ExprV, Function, FunctionV, ParamV, Program, ProgramV, Stmt, StmtV, Type, UnaryOp,
    expr_v, exprs_v, stmts_v, stmt_v, params_v, function_v, program_v, lemma_exprs_v_index,
    lemma_stmts_v_index,
};

verus! {

/// The signature of a function: its name, parameter types and return type.
pub struct FunSig {
    pub name: String,
    pub params: Vec<Type>,
    pub ret: Type,
}

pub struct FunSigV {
    pub name: Seq<char>,
    pub params: Seq<Type>,
    pub ret: Type,
}

pub open spec fn fun_sig_v(f: FunSig) -> FunSigV {
    FunSigV { name: f.name@, params: f.params@, ret: f.ret }
}

pub open spec fn sigs_v(fs: Seq<FunSig>) -> Seq<FunSigV> {
    fs.map_values(|f: FunSig| fun_sig_v(f))
}

pub open spec fn binding_v(b: (String, Type)) -> (Seq<char>, Type) {
    (b.0@, b.1)
}

/// A scope of variable types, later bindings shadowing earlier ones.
pub open spec fn env_v(env: Seq<(String, Type)>) -> Seq<(Seq<char>, Type)> {
    env.map_values(|b: (String, Type)| binding_v(b))
}

pub open spec fn names_v(ns: Seq<String>) -> Seq<Seq<char>> {
    ns.map_values(|n: String| n@)
}

/// The type of the latest binding of `n`.
pub open spec fn lookup_type(env: Seq<(Seq<char>, Type)>, n: Seq<char>) -> Option<Type>
    decreases env.len(),
{
    if env.len() == 0 {
        None
    } else if env.last().0 == n {
        Some(env.last().1)
    } else {
        lookup_type(env.drop_last(), n)
    }
}

/// The latest signature named `n`.
pub open spec fn lookup_fun(funs: Seq<FunSigV>, n: Seq<char>) -> Option<FunSigV>
    decreases funs.len(),
{
    if funs.len() == 0 {
        None
    } else if funs.last().name == n {
        Some(funs.last())
    } else {
        lookup_fun(funs.drop_last(), n)
    }
}

/// The signatures of a program's functions, in source order.
pub open spec fn program_sigs(p: ProgramV) -> Seq<FunSigV> {
    p.functions.map_values(|f: FunctionV| FunSigV {
        name: f.name,
        params: f.params.map_values(|q: ParamV| q.ty),
        ret: f.return_type,
    })
}

/// Why type checking failed.
#[derive(Debug)]
pub enum SemaError {
    UnknownIdentifier(String),
    NegExpectsI32,
    NotExpectsBool,
    ArithmeticExpectsI32,
    ComparisonExpectsI32,
    EqualityExpectsSameTypes,
    LogicalExpectsBool,
    IfConditionNotBool,
    IfBranchesDiffer,
    WhileConditionNotBool,
    UnknownFunction(String),
    ArgCountMismatch(String),
    ArgTypeMismatch(String),
    DuplicateLet(String),
    LetTypeMismatch(String),
    ReturnTypeMismatch { function: String, expected: Type, found: Type },
}

pub enum SemaErrorV {
    UnknownIdentifier(Seq<char>),
    NegExpectsI32,
    NotExpectsBool,
    ArithmeticExpectsI32,
    ComparisonExpectsI32,
    EqualityExpectsSameTypes,
    LogicalExpectsBool,
    IfConditionNotBool,
    IfBranchesDiffer,
    WhileConditionNotBool,
    UnknownFunction(Seq<char>),
    ArgCountMismatch(Seq<char>),
    ArgTypeMismatch(Seq<char>),
    DuplicateLet(Seq<char>),
    LetTypeMismatch(Seq<char>),
    ReturnTypeMismatch { function: Seq<char>, expected: Type, found: Type },
}

pub open spec fn serr_v(e: SemaError) -> SemaErrorV {
    match e {
        SemaError::UnknownIdentifier(n) => SemaErrorV::UnknownIdentifier(n@),
        SemaError::NegExpectsI32 => SemaErrorV::NegExpectsI32,
        SemaError::NotExpectsBool => SemaErrorV::NotExpectsBool,
        SemaError::ArithmeticExpectsI32 => SemaErrorV::ArithmeticExpectsI32,
        SemaError::ComparisonExpectsI32 => SemaErrorV::ComparisonExpectsI32,
        SemaError::EqualityExpectsSameTypes => SemaErrorV::EqualityExpectsSameTypes,
        SemaError::LogicalExpectsBool => SemaErrorV::LogicalExpectsBool,
        SemaError::IfConditionNotBool => SemaErrorV::IfConditionNotBool,
        SemaError::IfBranchesDiffer => SemaErrorV::IfBranchesDiffer,
        SemaError::WhileConditionNotBool => SemaErrorV::WhileConditionNotBool,
        SemaError::UnknownFunction(n) => SemaErrorV::UnknownFunction(n@),
        SemaError::ArgCountMismatch(n) => SemaErrorV::ArgCountMismatch(n@),
        SemaError::ArgTypeMismatch(n) => SemaErrorV::ArgTypeMismatch(n@),
        SemaError::DuplicateLet(n) => SemaErrorV::DuplicateLet(n@),
        SemaError::LetTypeMismatch(n) => SemaErrorV::LetTypeMismatch(n@),
        SemaError::ReturnTypeMismatch { function, expected, found } => SemaErrorV::ReturnTypeMismatch {
            function: function@,
            expected,
            found,
        },
    }
}

/// The type of a binary operation on operands of types `l` and `r`:
/// arithmetic takes `i32` to `i32`, ordering takes `i32` to `bool`,
/// equality takes two operands of one type to `bool`, and logic takes
/// `bool` to `bool`.
pub open spec fn binary_type(op: BinOp, l: Type, r: Type) -> Result<Type, SemaErrorV> {
    match op {
        BinOp::Add | BinOp::Sub | BinOp::Mul | BinOp::Div | BinOp::Rem => if l != Type::I32
            || r != Type::I32 {
            Err(SemaErrorV::ArithmeticExpectsI32)
        } else {
            Ok(Type::I32)
        },
        BinOp::Lt | BinOp::Le | BinOp::Gt | BinOp::Ge => if l != Type::I32 || r != Type::I32 {
            Err(SemaErrorV::ComparisonExpectsI32)
        } else {
            Ok(Type::Bool)
        },
        BinOp::Eq | BinOp::Ne => if l != r {
            Err(SemaErrorV::EqualityExpectsSameTypes)
        } else {
            Ok(Type::Bool)
        },
        BinOp::And | BinOp::Or => if l != Type::Bool || r != Type::Bool {
            Err(SemaErrorV::LogicalExpectsBool)
        } else {
            Ok(Type::Bool)
        },
    }
}

/// The type of an expression in scope `env`, or the first error met in
/// evaluation order.
pub open spec fn s_check(e: ExprV, env: Seq<(Seq<char>, Type)>, funs: Seq<FunSigV>) -> Result<Type, SemaErrorV>
    decreases e,
{
    match e {
        ExprV::Int(_) => Ok(Type::I32),
        ExprV::Bool(_) => Ok(Type::Bool),
        ExprV::Ident(n) => match lookup_type(env, n) {
            Some(t) => Ok(t),
            None => Err(SemaErrorV::UnknownIdentifier(n)),
        },
        ExprV::Unary { op, expr } => match s_check(*expr, env, funs) {
            Err(x) => Err(x),
            Ok(t) => match op {
                UnaryOp::Neg => if t != Type::I32 { Err(SemaErrorV::NegExpectsI32) } else { Ok(Type::I32) },
                UnaryOp::Not => if t != Type::Bool { Err(SemaErrorV::NotExpectsBool) } else { Ok(Type::Bool) },
            },
        },
        ExprV::Binary { op, lhs, rhs } => match s_check(*lhs, env, funs) {
            Err(x) => Err(x),
            Ok(l) => match s_check(*rhs, env, funs) {
                Err(x) => Err(x),
                Ok(r) => binary_type(op, l, r),
            },
        },
        ExprV::If { cond, then_expr, else_expr } => match s_check(*cond, env, funs) {
            Err(x) => Err(x),
            Ok(c) => if c != Type::Bool {
                Err(SemaErrorV::IfConditionNotBool)
            } else {
                match s_check(*then_expr, env, funs) {
                    Err(x) => Err(x),
                    Ok(t) => match s_check(*else_expr, env, funs) {
                        Err(x) => Err(x),
                        Ok(f) => if t != f { Err(SemaErrorV::IfBranchesDiffer) } else { Ok(t) },
                    },
                }
            },
        },
        ExprV::While { cond, body } => match s_check(*cond, env, funs) {
            Err(x) => Err(x),
            Ok(c) => if c != Type::Bool {
                Err(SemaErrorV::WhileConditionNotBool)
            } else {
                match s_check(*body, env, funs) {
                    Err(x) => Err(x),
                    Ok(_) => Ok(Type::Unit),
                }
            },
        },
        ExprV::Call { name, args } => match lookup_fun(funs, name) {
            None => Err(SemaErrorV::UnknownFunction(name)),
            Some(sig) => if sig.params.len() != args.len() {
                Err(SemaErrorV::ArgCountMismatch(name))
            } else {
                match s_check_args(args, sig.params, name, env, funs) {
                    Err(x) => Err(x),
                    Ok(_) => Ok(sig.ret),
                }
            },
        },
        ExprV::Block { stmts, expr } => match s_check_stmts(stmts, env, seq![], funs) {
            Err(x) => Err(x),
            Ok(inner) => s_check(*expr, inner, funs),
        },
    }
}

/// Checks call arguments in order against the parameter types.
pub open spec fn s_check_args(
    args: Seq<ExprV>,
    params: Seq<Type>,
    name: Seq<char>,
    env: Seq<(Seq<char>, Type)>,
    funs: Seq<FunSigV>,
) -> Result<(), SemaErrorV>
    decreases args,
{
    if args.len() == 0 {
        Ok(())
    } else {
        match s_check(args[0], env, funs) {
            Err(x) => Err(x),
            Ok(a) => if params.len() == 0 || a != params[0] {
                Err(SemaErrorV::ArgTypeMismatch(name))
            } else {
                s_check_args(args.drop_first(), params.drop_first(), name, env, funs)
            },
        }
    }
}

/// Checks the statements of a block in order; `defined` holds the names
/// bound by `let` earlier in the same block.  Yields the scope in force after
/// the last statement.
pub open spec fn s_check_stmts(
    ss: Seq<StmtV>,
    env: Seq<(Seq<char>, Type)>,
    defined: Seq<Seq<char>>,
    funs: Seq<FunSigV>,
) -> Result<Seq<(Seq<char>, Type)>, SemaErrorV>
    decreases ss,
{
    if ss.len() == 0 {
        Ok(env)
    } else {
        match ss[0] {
            StmtV::Let { name, ty, value } => if defined.contains(name) {
                Err(SemaErrorV::DuplicateLet(name))
            } else {
                match s_check(value, env, funs) {
                    Err(x) => Err(x),
                    Ok(vt) => if vt != ty {
                        Err(SemaErrorV::LetTypeMismatch(name))
                    } else {
                        s_check_stmts(ss.drop_first(), env.push((name, ty)), defined.push(name), funs)
                    },
                }
            },
            StmtV::Expr(x) => match s_check(x, env, funs) {
                Err(err) => Err(err),
                Ok(_) => s_check_stmts(ss.drop_first(), env, defined, funs),
            },
        }
    }
}

/// The scope of a function body: its parameters.
pub open spec fn param_env(ps: Seq<ParamV>) -> Seq<(Seq<char>, Type)> {
    ps.map_values(|q: ParamV| (q.name, q.ty))
}

/// A function checks when its body has its declared return type.
pub open spec fn s_check_function(f: FunctionV, funs: Seq<FunSigV>) -> Result<(), SemaErrorV> {
    match s_check(f.body, param_env(f.params), funs) {
        Err(x) => Err(x),
        Ok(t) => if t != f.return_type {
            Err(SemaErrorV::ReturnTypeMismatch { function: f.name, expected: f.return_type, found: t })
        } else {
            Ok(())
        },
    }
}

/// Checks the functions from index `i` on, in order.
pub open spec fn s_check_functions(fs: Seq<FunctionV>, i: int, funs: Seq<FunSigV>) -> Result<(), SemaErrorV>
    decreases fs.len() - i,
{
    if i < 0 || i >= fs.len() {
        Ok(())
    } else {
        match s_check_function(fs[i], funs) {
            Err(x) => Err(x),
            Ok(_) => s_check_functions(fs, i + 1, funs),
        }
    }
}

/// A program checks when every function does, against the signatures of all.
pub open spec fn spec_analyze(p: ProgramV) -> Result<(), SemaErrorV> {
    s_check_functions(p.functions, 0, program_sigs(p))
}

pub open spec fn sres(r: Result<Type, SemaError>) -> Result<Type, SemaErrorV> {
    match r {
        Ok(t) => Ok(t),
        Err(e) => Err(serr_v(e)),
    }
}

pub open spec fn ures(r: Result<(), SemaError>) -> Result<(), SemaErrorV> {
    match r {
        Ok(_) => Ok(()),
        Err(e) => Err(serr_v(e)),
    }
}

/// A copy of a scope.
pub fn copy_env(env: &Vec<(String, Type)>) -> (r: Vec<(String, Type)>)
    ensures
        env_v(r@) == env_v(env@),
{
    let mut r: Vec<(String, Type)> = Vec::new();
    let mut i: usize = 0;
    while i < env.len()
        invariant
            i <= env@.len(),
            r@.len() == i,
            forall|k: int| 0 <= k < i ==> #[trigger] binding_v(r@[k]) == binding_v(env@[k]),
        decreases env@.len() - i,
    {
        let b = (env[i].0.clone(), env[i].1);
        r.push(b);
        i = i + 1;
    }
    assert(env_v(r@) =~= env_v(env@));
    r
}

/// The type of the latest binding of `n` in `env`.
pub fn lookup_env(env: &Vec<(String, Type)>, n: &String) -> (r: Option<Type>)
    ensures
        r == lookup_type(env_v(env@), n@),
{
    let mut j: usize = env.len();
    assert(env_v(env@).subrange(0, j as int) =~= env_v(env@));
    while j > 0
        invariant
            j <= env@.len(),
            lookup_type(env_v(env@), n@) == lookup_type(env_v(env@).subrange(0, j as int), n@),
        decreases j,
    {
        let ghost sub = env_v(env@).subrange(0, j as int);
        assert(sub.drop_last() =~= env_v(env@).subrange(0, j - 1));
        if env[j - 1].0 == *n {
            return Some(env[j - 1].1);
        }
        j = j - 1;
    }
    None
}

/// The index of the latest signature named `n`.
pub fn lookup_sig(funs: &Vec<FunSig>, n: &String) -> (r: Option<usize>)
    ensures
        r matches Some(k) ==> k < funs@.len() && lookup_fun(sigs_v(funs@), n@) == Some(fun_sig_v(funs@[k as int])),
        r is None ==> lookup_fun(sigs_v(funs@), n@) is None,
{
    let mut j: usize = funs.len();
    assert(sigs_v(funs@).subrange(0, j as int) =~= sigs_v(funs@));
    while j > 0
        invariant
            j <= funs@.len(),
            lookup_fun(sigs_v(funs@), n@) == lookup_fun(sigs_v(funs@).subrange(0, j as int), n@),
        decreases j,
    {
        let ghost sub = sigs_v(funs@).subrange(0, j as int);
        assert(sub.drop_last() =~= sigs_v(funs@).subrange(0, j - 1));
        if funs[j - 1].name == *n {
            return Some(j - 1);
        }
        j = j - 1;
    }
    None
}

/// Whether `n` is among `ns`.
pub fn contains_name(ns: &Vec<String>, n: &String) -> (b: bool)
    ensures
        b == names_v(ns@).contains(n@),
{
    let mut i: usize = 0;
    while i < ns.len()
        invariant
            i <= ns@.len(),
            forall|k: int| 0 <= k < i ==> ns@[k]@ != n@,
        decreases ns@.len() - i,
    {
        if ns[i] == *n {
            assert(names_v(ns@)[i as int] == n@);
            return true;
        }
        i = i + 1;
    }
    assert forall|k: int| 0 <= k < names_v(ns@).len() implies names_v(ns@)[k] != n@ by {}
    false
}

/// The signatures of a program's functions, in source order.
pub fn fun_table(program: &Program) -> (r: Vec<FunSig>)
    ensures
        sigs_v(r@) == program_sigs(program_v(*program)),
{
    let mut r: Vec<FunSig> = Vec::new();
    let mut i: usize = 0;
    let ghost pv = program_v(*program);
    while i < program.functions.len()
        invariant
            i <= program.functions@.len(),
            pv == program_v(*program),
            r@.len() == i,
            forall|k: int| 0 <= k < i ==> #[trigger] fun_sig_v(r@[k]) == program_sigs(pv)[k],
        decreases program.functions@.len() - i,
    {
        let f = &program.functions[i];
        let mut tys: Vec<Type> = Vec::new();
        let mut k: usize = 0;
        while k < f.params.len()
            invariant
                k <= f.params@.len(),
                tys@ =~= params_v(f.params@).map_values(|q: ParamV| q.ty).subrange(0, k as int),
            decreases f.params@.len() - k,
        {
            tys.push(f.params[k].ty);
            k = k + 1;
        }
        assert(tys@ =~= params_v(f.params@).map_values(|q: ParamV| q.ty));
        let sig = FunSig { name: f.name.clone(), params: tys, ret: f.return_type };
        r.push(sig);
        i = i + 1;
    }
    assert(sigs_v(r@) =~= program_sigs(pv));
    r
}

/// The type of an expression; see `s_check`.
#[verifier::loop_isolation(false)]
pub fn check_expr(e: &Expr, locals: &Vec<(String, Type)>, funs: &Vec<FunSig>) -> (r: Result<Type, SemaError>)
    ensures
        sres(r) == s_check(expr_v(*e), env_v(locals@), sigs_v(funs@)),
    decreases e, 1int,
{
    match e {
        Expr::Int(_) => Ok(Type::I32),
        Expr::Bool(_) => Ok(Type::Bool),
        Expr::Ident(name) => match lookup_env(locals, name) {
            Some(t) => Ok(t),
            None => Err(SemaError::UnknownIdentifier(name.clone())),
        },
        Expr::Unary { op, expr } => {
            let t = check_expr(expr, locals, funs)?;
            match op {
                UnaryOp::Neg => {
                    if t != Type::I32 {
                        return Err(SemaError::NegExpectsI32);
                    }
                    Ok(Type::I32)
                },
                UnaryOp::Not => {
                    if t != Type::Bool {
                        return Err(SemaError::NotExpectsBool);
                    }
                    Ok(Type::Bool)
                },
            }
        },
        Expr::Binary { op, lhs, rhs } => {
            let l = check_expr(lhs, locals, funs)?;
            let r = check_expr(rhs, locals, funs)?;
            match op {
                BinOp::Add | BinOp::Sub | BinOp::Mul | BinOp::Div | BinOp::Rem => {
                    if l != Type::I32 || r != Type::I32 {
                        return Err(SemaError::ArithmeticExpectsI32);
                    }
                    Ok(Type::I32)
                },
                BinOp::Lt | BinOp::Le | BinOp::Gt | BinOp::Ge => {
                    if l != Type::I32 || r != Type::I32 {
                        return Err(SemaError::ComparisonExpectsI32);
                    }
                    Ok(Type::Bool)
                },
                BinOp::Eq | BinOp::Ne => {
                    if l != r {
                        return Err(SemaError::EqualityExpectsSameTypes);
                    }
                    Ok(Type::Bool)
                },
                BinOp::And | BinOp::Or => {
                    if l != Type::Bool || r != Type::Bool {
                        return Err(SemaError::LogicalExpectsBool);
                    }
                    Ok(Type::Bool)
                },
            }
        },
        Expr::If { cond, then_expr, else_expr } => {
            let c = check_expr(cond, locals, funs)?;
            if c != Type::Bool {
                return Err(SemaError::IfConditionNotBool);
            }
            let t = check_expr(then_expr, locals, funs)?;
            let f = check_expr(else_expr, locals, funs)?;
            if t != f {
                return Err(SemaError::IfBranchesDiffer);
            }
            Ok(t)
        },
        Expr::While { cond, body } => {
            let c = check_expr(cond, locals, funs)?;
            if c != Type::Bool {
                return Err(SemaError::WhileConditionNotBool);
            }
            let _ = check_expr(body, locals, funs)?;
            Ok(Type::Unit)
        },
        Expr::Call { .. } => check_call(e, locals, funs),
        Expr::Block { .. } => check_block(e, locals, funs),
    }
}

/// The type of a Call expression; see `s_check`.
#[verifier::loop_isolation(false)]
fn check_call(e: &Expr, locals: &Vec<(String, Type)>, funs: &Vec<FunSig>) -> (r: Result<Type, SemaError>)
    requires
        e is Call,
    ensures
        sres(r) == s_check(expr_v(*e), env_v(locals@), sigs_v(funs@)),
    decreases e, 0int,
{
    match e {
        Expr::Call { name, args } => {
            match lookup_sig(funs, name) {
                None => Err(SemaError::UnknownFunction(name.clone())),
                Some(k) => {
                    let sig = &funs[k];
                    if sig.params.len() != args.len() {
                        proof {
                            lemma_exprs_v_index(args@);
                        }
                        return Err(SemaError::ArgCountMismatch(name.clone()));
                    }
                    let ghost argsv = exprs_v(args@);
                    let ghost env = env_v(locals@);
                    let ghost fv = sigs_v(funs@);
                    proof {
                        lemma_exprs_v_index(args@);
                        assert(argsv.subrange(0, argsv.len() as int) =~= argsv);
                        assert(sig.params@.subrange(0, sig.params@.len() as int) =~= sig.params@);
                    }
                    let mut i: usize = 0;
                    while i < args.len()
                        invariant
                            i <= args@.len(),
                            args@.len() == sig.params@.len(),
                            argsv == exprs_v(args@),
                            argsv.len() == args@.len(),
                            forall|j: int| 0 <= j < args@.len() ==> #[trigger] argsv[j] == expr_v(args@[j]),
                            env == env_v(locals@),
                            fv == sigs_v(funs@),
                            s_check_args(argsv, sig.params@, name@, env, fv) == s_check_args(
                                argsv.subrange(i as int, argsv.len() as int),
                                sig.params@.subrange(i as int, sig.params@.len() as int),
                                name@,
                                env,
                                fv,
                            ),
                        decreases args@.len() - i,
                    {
                        let ghost sa = argsv.subrange(i as int, argsv.len() as int);
                        let ghost sp = sig.params@.subrange(i as int, sig.params@.len() as int);
                        assert(sa[0] == argsv[i as int]);
                        assert(sa.drop_first() =~= argsv.subrange(i + 1, argsv.len() as int));
                        assert(sp.drop_first() =~= sig.params@.subrange(i + 1, sig.params@.len() as int));
                        let a = check_expr(&args[i], locals, funs)?;
                        if a != sig.params[i] {
                            return Err(SemaError::ArgTypeMismatch(name.clone()));
                        }
                        i = i + 1;
                    }
                    Ok(sig.ret)
                },
            }
        },
        _ => Err(SemaError::NegExpectsI32),
    }
}

/// The type of a Block expression; see `s_check`.
#[verifier::loop_isolation(false)]
fn check_block(e: &Expr, locals: &Vec<(String, Type)>, funs: &Vec<FunSig>) -> (r: Result<Type, SemaError>)
    requires
        e is Block,
    ensures
        sres(r) == s_check(expr_v(*e), env_v(locals@), sigs_v(funs@)),
    decreases e, 0int,
{
    match e {
        Expr::Block { stmts, expr } => {
            let mut scoped = copy_env(locals);
            let mut defined: Vec<String> = Vec::new();
            let ghost ssv = stmts_v(stmts@);
            let ghost fv = sigs_v(funs@);
            let ghost env0 = env_v(locals@);
            proof {
                lemma_stmts_v_index(stmts@);
                assert(ssv.subrange(0, ssv.len() as int) =~= ssv);
                assert(names_v(defined@) =~= seq![]);
            }
            let mut i: usize = 0;
            while i < stmts.len()
                invariant
                    i <= stmts@.len(),
                    ssv == stmts_v(stmts@),
                    ssv.len() == stmts@.len(),
                    forall|j: int| 0 <= j < stmts@.len() ==> #[trigger] ssv[j] == stmt_v(stmts@[j]),
                    fv == sigs_v(funs@),
                    s_check_stmts(ssv, env0, seq![], fv) == s_check_stmts(
                        ssv.subrange(i as int, ssv.len() as int),
                        env_v(scoped@),
                        names_v(defined@),
                        fv,
                    ),
                decreases stmts@.len() - i,
            {
                let ghost sa = ssv.subrange(i as int, ssv.len() as int);
                assert(sa[0] == ssv[i as int]);
                assert(sa.drop_first() =~= ssv.subrange(i + 1, ssv.len() as int));
                match &stmts[i] {
                    Stmt::Let { name, ty, value } => {
                        if contains_name(&defined, name) {
                            return Err(SemaError::DuplicateLet(name.clone()));
                        }
                        let vty = check_expr(value, &scoped, funs)?;
                        if vty != *ty {
                            return Err(SemaError::LetTypeMismatch(name.clone()));
                        }
                        let ghost old_scoped = scoped@;
                        let ghost old_defined = defined@;
                        scoped.push((name.clone(), *ty));
                        defined.push(name.clone());
                        assert(env_v(scoped@) =~= env_v(old_scoped).push((name@, *ty)));
                        assert(names_v(defined@) =~= names_v(old_defined).push(name@));
                    },
                    Stmt::Expr(x) => {
                        let _ = check_expr(x, &scoped, funs)?;
                    },
                }
                i = i + 1;
            }
            proof {
                assert(ssv.subrange(i as int, ssv.len() as int) =~= seq![]);
            }
            check_expr(expr, &scoped, funs)
        },
        _ => Err(SemaError::NegExpectsI32),
    }
}

/// Checks that a function's body has its declared return type.
pub fn check_function(f: &Function, funs: &Vec<FunSig>) -> (r: Result<(), SemaError>)
    ensures
        ures(r) == s_check_function(function_v(*f), sigs_v(funs@)),
{
    let mut locals: Vec<(String, Type)> = Vec::new();
    let mut i: usize = 0;
    while i < f.params.len()
        invariant
            i <= f.params@.len(),
            locals@.len() == i,
            forall|k: int| 0 <= k < i ==> #[trigger] binding_v(locals@[k]) == param_env(params_v(f.params@))[k],
        decreases f.params@.len() - i,
    {
        locals.push((f.params[i].name.clone(), f.params[i].ty));
        i = i + 1;
    }
    assert(env_v(locals@) =~= param_env(params_v(f.params@)));
    let ty = check_expr(&f.body, &locals, funs)?;
    if ty != f.return_type {
        return Err(SemaError::ReturnTypeMismatch { function: f.name.clone(), expected: f.return_type, found: ty });
    }
    Ok(())
}

/// Type checks a program; on success it is handed back unchanged.  See
/// `spec_analyze`.
pub fn analyze(program: Program) -> (r: Result<Program, SemaError>)
    ensures
        match spec_analyze(program_v(program)) {
            Ok(_) => r == Ok::<Program, SemaError>(program),
            Err(e) => r is Err && serr_v(r->Err_0) == e,
        },
{
    let funs = fun_table(&program);
    let ghost pv = program_v(program);
    let mut i: usize = 0;
    while i < program.functions.len()
        invariant
            i <= program.functions@.len(),
            pv == program_v(program),
            sigs_v(funs@) == program_sigs(pv),
            spec_analyze(pv) == s_check_functions(pv.functions, i as int, program_sigs(pv)),
        decreases program.functions@.len() - i,
    {
        let r = check_function(&program.functions[i], &funs);
        match r {
            Ok(_) => {},
            Err(e) => {
                return Err(e);
            },
        }
        i = i + 1;
    }
    Ok(program)
}

/// Shadowing: a `let` may rebind a name that an enclosing scope binds, and
/// inside its block the innermost binding is the one in force.
pub proof fn law_innermost_binding_wins(
    env: Seq<(Seq<char>, Type)>,
    funs: Seq<FunSigV>,
    x: Seq<char>,
    t: Type,
    e: ExprV,
)
    requires
        s_check(e, env, funs) == Ok::<Type, SemaErrorV>(t),
    ensures
        s_check(
            ExprV::Block { stmts: seq![StmtV::Let { name: x, ty: t, value: e }], expr: Box::new(ExprV::Ident(x)) },
            env,
            funs,
        ) == Ok::<Type, SemaErrorV>(t),
{
    let ss = seq![StmtV::Let { name: x, ty: t, value: e }];
    let env2 = env.push((x, t));
    assert(ss.drop_first() =~= Seq::<StmtV>::empty());
    assert(!Seq::<Seq<char>>::empty().contains(x));
    assert(ss[0] == StmtV::Let { name: x, ty: t, value: e });
    assert(s_check_stmts(ss.drop_first(), env2, seq![x], funs) == Ok::<Seq<(Seq<char>, Type)>, SemaErrorV>(env2));
    assert(s_check_stmts(ss, env, seq![], funs) == Ok::<Seq<(Seq<char>, Type)>, SemaErrorV>(env2));
    assert(env2.last() == (x, t));
    assert(lookup_type(env2, x) == Some(t));
    assert(s_check(ExprV::Ident(x), env2, funs) == Ok::<Type, SemaErrorV>(t));
}

/// One block binds a name once: a second `let` of the same name in the
/// same block is refused.
pub proof fn law_no_rebinding_in_a_block(
    env: Seq<(Seq<char>, Type)>,
    funs: Seq<FunSigV>,
    x: Seq<char>,
    t: Type,
    e: ExprV,
    t2: Type,
    e2: ExprV,
    rest: ExprV,
)
    requires
        s_check(e, env, funs) == Ok::<Type, SemaErrorV>(t),
    ensures
        s_check(
            ExprV::Block {
                stmts: seq![StmtV::Let { name: x, ty: t, value: e }, StmtV::Let { name: x, ty: t2, value: e2 }],
                expr: Box::new(rest),
            },
            env,
            funs,
        ) == Err::<Type, SemaErrorV>(SemaErrorV::DuplicateLet(x)),
{
    let ss = seq![StmtV::Let { name: x, ty: t, value: e }, StmtV::Let { name: x, ty: t2, value: e2 }];
    let rest_ss = seq![StmtV::Let { name: x, ty: t2, value: e2 }];
    assert(ss.drop_first() =~= rest_ss);
    assert(!Seq::<Seq<char>>::empty().contains(x));
    let d = Seq::<Seq<char>>::empty().push(x);
    assert(d[0] == x);
    assert(d.contains(x));
    assert(ss[0] == StmtV::Let { name: x, ty: t, value: e });
    assert(rest_ss[0] == StmtV::Let { name: x, ty: t2, value: e2 });
    assert(s_check_stmts(rest_ss, env.push((x, t)), d, funs) == Err::<Seq<(Seq<char>, Type)>, SemaErrorV>(SemaErrorV::DuplicateLet(x)));
    assert(s_check_stmts(ss, env, seq![], funs) == Err::<Seq<(Seq<char>, Type)>, SemaErrorV>(SemaErrorV::DuplicateLet(x)));
}

} // verus!
