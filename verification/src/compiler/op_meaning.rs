//! What the operators of the language mean, stated apart from the code that
//! handles them: how lowering keeps a comparison's meaning, how the parser
//! ranks operators, and which operand types the type checker lets through.
use vstd::prelude::*;
use crate::compiler::ast::{BinOp, ExprV, StmtV, Type, UnaryOp};
use crate::compiler::lexer::TokenV;
use crate::compiler::parser::{s_expr, s_binary, s_binary_rest, s_operand, s_unary, s_primary, binop_at, ParseErrorV};
use crate::compiler::ir::InstrV;
use crate::compiler::codegen::{s_binary_instr, CodegenErrorV};
use crate::compiler::sema::{FunSigV, s_check, s_check_stmts, lookup_type, lookup_fun, SemaErrorV};
use crate::vm::compare_meaning::llvm_relation;

verus! {

/// The comparison operators of the language.
pub open spec fn is_comparison(op: BinOp) -> bool {
    match op {
        BinOp::Lt | BinOp::Le | BinOp::Gt | BinOp::Ge | BinOp::Eq | BinOp::Ne => true,
        _ => false,
    }
}

/// What a comparison operator of the language means on two integers.
pub open spec fn source_relation(op: BinOp, a: int, b: int) -> bool {
    match op {
        BinOp::Lt => a < b,
        BinOp::Le => a <= b,
        BinOp::Gt => a > b,
        BinOp::Ge => a >= b,
        BinOp::Eq => a == b,
        BinOp::Ne => a != b,
        _ => false,
    }
}

/// Lowering keeps a comparison's meaning: the instruction emitted for a
/// comparison operator is an `icmp` of the two operands into the
/// destination, whose keyword holds, on every pair of `i32` values, exactly
/// when the source operator does; an ordering compares at `i32`.
pub proof fn law_comparison_lowering_keeps_meaning(
    op: BinOp,
    d: Seq<char>,
    l: Seq<char>,
    r: Seq<char>,
    lhs: ExprV,
    env: Seq<(Seq<char>, Type)>,
    funs: Seq<FunSigV>,
    a: i32,
    b: i32,
)
    requires
        is_comparison(op),
        s_binary_instr(op, d, l, r, lhs, env, funs) is Ok,
    ensures
        ({
            let i = s_binary_instr(op, d, l, r, lhs, env, funs)->Ok_0;
            &&& i is ICmp
            &&& i->ICmp_dest == d
            &&& i->ICmp_lhs == l
            &&& i->ICmp_rhs == r
            &&& (op != BinOp::Eq && op != BinOp::Ne ==> i->ICmp_ty == Type::I32)
            &&& llvm_relation(i->ICmp_pred, a as int, b as int) == source_relation(op, a as int, b as int)
        }),
{
    reveal_strlit("eq");
    reveal_strlit("ne");
    reveal_strlit("sgt");
    reveal_strlit("sge");
    reveal_strlit("slt");
    reveal_strlit("sle");
    reveal_strlit("ugt");
    reveal_strlit("uge");
    reveal_strlit("ult");
    reveal_strlit("ule");
    let e = "eq"@;
    let n = "ne"@;
    let gt = "sgt"@;
    let ge = "sge"@;
    let lt = "slt"@;
    let le = "sle"@;
    assert(n != e) by { assert(n[0] != e[0]); }
    assert(gt != e && gt != n) by { assert(gt.len() != e.len()); }
    assert(ge != e && ge != n && ge != gt) by { assert(ge.len() != e.len() && ge[2] != gt[2]); }
    assert(lt != e && lt != n && lt != gt && lt != ge) by { assert(lt.len() != e.len() && lt[1] != gt[1] && lt[1] != ge[1]); }
    assert(le != e && le != n && le != gt && le != ge && le != lt) by {
        assert(le.len() != e.len() && le[1] != gt[1] && le[1] != ge[1] && le[2] != lt[2]);
    }
}

/// The type checker's rule for binary operators, stated by operand types:
/// a binary expression checks only when both operands check; arithmetic
/// takes two `i32`s to `i32`, an ordering two `i32`s to `bool`, equality two
/// operands of one type to `bool`, and `&&` / `||` two `bool`s to `bool`.
pub proof fn law_binary_operand_types(
    op: BinOp,
    lhs: ExprV,
    rhs: ExprV,
    env: Seq<(Seq<char>, Type)>,
    funs: Seq<FunSigV>,
)
    requires
        s_check(ExprV::Binary { op, lhs: Box::new(lhs), rhs: Box::new(rhs) }, env, funs) is Ok,
    ensures
        ({
            let t = s_check(ExprV::Binary { op, lhs: Box::new(lhs), rhs: Box::new(rhs) }, env, funs)->Ok_0;
            let lt = s_check(lhs, env, funs);
            let rt = s_check(rhs, env, funs);
            &&& lt is Ok
            &&& rt is Ok
            &&& (op == BinOp::Add || op == BinOp::Sub || op == BinOp::Mul || op == BinOp::Div || op == BinOp::Rem)
                ==> lt == Ok::<Type, SemaErrorV>(Type::I32) && rt == Ok::<Type, SemaErrorV>(Type::I32) && t == Type::I32
            &&& (op == BinOp::Lt || op == BinOp::Le || op == BinOp::Gt || op == BinOp::Ge)
                ==> lt == Ok::<Type, SemaErrorV>(Type::I32) && rt == Ok::<Type, SemaErrorV>(Type::I32) && t == Type::Bool
            &&& (op == BinOp::Eq || op == BinOp::Ne) ==> lt == rt && t == Type::Bool
            &&& (op == BinOp::And || op == BinOp::Or)
                ==> lt == Ok::<Type, SemaErrorV>(Type::Bool) && rt == Ok::<Type, SemaErrorV>(Type::Bool) && t == Type::Bool
        }),
{
}

/// The operator a token stands for in an expression.
pub open spec fn op_of(x: TokenV) -> Option<BinOp> {
    match x {
        TokenV::OrOr => Some(BinOp::Or),
        TokenV::AndAnd => Some(BinOp::And),
        TokenV::EqEq => Some(BinOp::Eq),
        TokenV::NotEq => Some(BinOp::Ne),
        TokenV::Lt => Some(BinOp::Lt),
        TokenV::Le => Some(BinOp::Le),
        TokenV::Gt => Some(BinOp::Gt),
        TokenV::Ge => Some(BinOp::Ge),
        TokenV::Plus => Some(BinOp::Add),
        TokenV::Minus => Some(BinOp::Sub),
        TokenV::Star => Some(BinOp::Mul),
        TokenV::Slash => Some(BinOp::Div),
        TokenV::Percent => Some(BinOp::Rem),
        _ => None,
    }
}

/// How tightly an operator binds, loosest first: `||`, `&&`, equality,
/// ordering, `+ -`, then `* / %`.
pub open spec fn binding_power(op: BinOp) -> int {
    match op {
        BinOp::Or => 0,
        BinOp::And => 1,
        BinOp::Eq | BinOp::Ne => 2,
        BinOp::Lt | BinOp::Le | BinOp::Gt | BinOp::Ge => 3,
        BinOp::Add | BinOp::Sub => 4,
        BinOp::Mul | BinOp::Div | BinOp::Rem => 5,
    }
}

pub open spec fn bin(op: BinOp, l: ExprV, r: ExprV) -> ExprV {
    ExprV::Binary { op, lhs: Box::new(l), rhs: Box::new(r) }
}

proof fn lemma_binop_table(level: int, x: TokenV)
    ensures
        binop_at(level, x) == (if op_of(x) is Some && level == binding_power(op_of(x)->Some_0) {
            op_of(x)
        } else {
            None::<BinOp>
        }),
{
}

/// The token at `q` starts no operator that binds at level `k` or tighter.
pub open spec fn ends_below(t: Seq<TokenV>, q: int, k: int) -> bool {
    q >= t.len() || op_of(t[q]) is None || binding_power(op_of(t[q])->Some_0) < k
}

proof fn lemma_rest_stops(t: Seq<TokenV>, q: int, k: int, e: ExprV)
    requires
        0 <= q <= t.len(),
        ends_below(t, q, k),
    ensures
        s_binary_rest(t, q, k, e) == Ok::<(ExprV, int), ParseErrorV>((e, q)),
{
    if q < t.len() {
        lemma_binop_table(k, t[q]);
    }
}

/// An integer followed by nothing that binds at level `k` or tighter.
proof fn lemma_atom(t: Seq<TokenV>, p: int, k: int, v: i32)
    requires
        0 <= p < t.len(),
        0 <= k <= 5,
        t[p] == TokenV::Int(v),
        ends_below(t, p + 1, k),
    ensures
        s_binary(t, p, k) == Ok::<(ExprV, int), ParseErrorV>((ExprV::Int(v), p + 1)),
    decreases 5 - k,
{
    if k < 5 {
        lemma_atom(t, p, k + 1, v);
    } else {
        assert(s_primary(t, p) == Ok::<(ExprV, int), ParseErrorV>((ExprV::Int(v), p + 1)));
        assert(s_unary(t, p) == Ok::<(ExprV, int), ParseErrorV>((ExprV::Int(v), p + 1)));
    }
    lemma_rest_stops(t, p + 1, k, ExprV::Int(v));
}

/// `b y c`, followed by nothing that binds at level `k` or tighter, parses
/// at level `k` as `y` applied to `b` and `c` when `y` binds at `k` or tighter.
proof fn lemma_pair(t: Seq<TokenV>, p: int, k: int, b: i32, c: i32)
    requires
        0 <= p && p + 2 < t.len(),
        0 <= k,
        t[p] == TokenV::Int(b),
        t[p + 2] == TokenV::Int(c),
        op_of(t[p + 1]) is Some,
        k <= binding_power(op_of(t[p + 1])->Some_0),
        ends_below(t, p + 3, k),
    ensures
        s_binary(t, p, k) == Ok::<(ExprV, int), ParseErrorV>((
            bin(op_of(t[p + 1])->Some_0, ExprV::Int(b), ExprV::Int(c)),
            p + 3,
        )),
    decreases binding_power(op_of(t[p + 1])->Some_0) - k,
{
    let y = op_of(t[p + 1])->Some_0;
    let j = binding_power(y);
    let e = bin(y, ExprV::Int(b), ExprV::Int(c));
    if k < j {
        lemma_pair(t, p, k + 1, b, c);
        lemma_rest_stops(t, p + 3, k, e);
    } else {
        if k < 5 {
            lemma_atom(t, p, k + 1, b);
            assert(s_operand(t, p, k) == s_binary(t, p, k + 1));
        } else {
            assert(s_primary(t, p) == Ok::<(ExprV, int), ParseErrorV>((ExprV::Int(b), p + 1)));
            assert(s_unary(t, p) == Ok::<(ExprV, int), ParseErrorV>((ExprV::Int(b), p + 1)));
        }
        lemma_binop_table(k, t[p + 1]);
        if k < 5 {
            lemma_atom(t, p + 2, k + 1, c);
            assert(s_operand(t, p + 2, k) == s_binary(t, p + 2, k + 1));
        } else {
            assert(s_primary(t, p + 2) == Ok::<(ExprV, int), ParseErrorV>((ExprV::Int(c), p + 3)));
            assert(s_unary(t, p + 2) == Ok::<(ExprV, int), ParseErrorV>((ExprV::Int(c), p + 3)));
        }
        lemma_rest_stops(t, p + 3, k, e);
    }
}

/// An integer as the operand of an operator of level `k`.
proof fn lemma_operand_atom(t: Seq<TokenV>, p: int, k: int, v: i32)
    requires
        0 <= p < t.len(),
        0 <= k <= 5,
        t[p] == TokenV::Int(v),
        k == 5 || ends_below(t, p + 1, k + 1),
    ensures
        s_operand(t, p, k) == Ok::<(ExprV, int), ParseErrorV>((ExprV::Int(v), p + 1)),
{
    if k < 5 {
        lemma_atom(t, p, k + 1, v);
    } else {
        assert(s_primary(t, p) == Ok::<(ExprV, int), ParseErrorV>((ExprV::Int(v), p + 1)));
        assert(s_unary(t, p) == Ok::<(ExprV, int), ParseErrorV>((ExprV::Int(v), p + 1)));
    }
}

/// What parses at one level parses the same at every looser level when
/// nothing follows it.
proof fn lemma_lift(t: Seq<TokenV>, k: int, top: int, e: ExprV)
    requires
        0 <= k <= top <= 5,
        s_binary(t, 0, top) == Ok::<(ExprV, int), ParseErrorV>((e, t.len() as int)),
    ensures
        s_binary(t, 0, k) == Ok::<(ExprV, int), ParseErrorV>((e, t.len() as int)),
    decreases top - k,
{
    if k < top {
        lemma_lift(t, k + 1, top, e);
        lemma_rest_stops(t, t.len() as int, k, e);
    }
}

/// The five tokens `a x b y c`.
pub open spec fn three_ints(a: i32, x: TokenV, b: i32, y: TokenV, c: i32) -> Seq<TokenV> {
    seq![TokenV::Int(a), x, TokenV::Int(b), y, TokenV::Int(c)]
}

/// Operator precedence: of two operators, the one that binds tighter takes
/// its operands first, whichever side it stands on: `a x b y c` parses as
/// `x(a, y(b, c))` and `a y b x c` as `x(y(a, b), c)` when `y` binds tighter
/// than `x` (so `1 + 5 % 3` is `1 + (5 % 3)`).
pub proof fn law_tighter_operator_groups_first(a: i32, b: i32, c: i32, x: TokenV, y: TokenV)
    requires
        op_of(x) is Some,
        op_of(y) is Some,
        binding_power(op_of(x)->Some_0) < binding_power(op_of(y)->Some_0),
    ensures
        s_expr(three_ints(a, x, b, y, c), 0) == Ok::<(ExprV, int), ParseErrorV>((
            bin(op_of(x)->Some_0, ExprV::Int(a), bin(op_of(y)->Some_0, ExprV::Int(b), ExprV::Int(c))),
            5,
        )),
        s_expr(three_ints(a, y, b, x, c), 0) == Ok::<(ExprV, int), ParseErrorV>((
            bin(op_of(x)->Some_0, bin(op_of(y)->Some_0, ExprV::Int(a), ExprV::Int(b)), ExprV::Int(c)),
            5,
        )),
{
    let xo = op_of(x)->Some_0;
    let yo = op_of(y)->Some_0;
    let i = binding_power(xo);
    let t1 = three_ints(a, x, b, y, c);
    let e1 = bin(xo, ExprV::Int(a), bin(yo, ExprV::Int(b), ExprV::Int(c)));
    lemma_atom(t1, 0, i + 1, a);
    lemma_binop_table(i, x);
    lemma_pair(t1, 2, i + 1, b, c);
    lemma_rest_stops(t1, 5, i, e1);
    assert(s_operand(t1, 0, i) == s_binary(t1, 0, i + 1));
    assert(s_operand(t1, 2, i) == s_binary(t1, 2, i + 1));
    assert(s_binary_rest(t1, 1, i, ExprV::Int(a)) == Ok::<(ExprV, int), ParseErrorV>((e1, 5)));
    assert(s_binary(t1, 0, i) == Ok::<(ExprV, int), ParseErrorV>((e1, 5)));
    lemma_lift(t1, 0, i, e1);
    let t2 = three_ints(a, y, b, x, c);
    let e2 = bin(xo, bin(yo, ExprV::Int(a), ExprV::Int(b)), ExprV::Int(c));
    lemma_pair(t2, 0, i + 1, a, b);
    lemma_binop_table(i, x);
    lemma_atom(t2, 4, i + 1, c);
    lemma_rest_stops(t2, 5, i, e2);
    assert(s_operand(t2, 0, i) == s_binary(t2, 0, i + 1));
    assert(s_operand(t2, 4, i) == s_binary(t2, 4, i + 1));
    assert(s_binary_rest(t2, 3, i, bin(yo, ExprV::Int(a), ExprV::Int(b))) == Ok::<(ExprV, int), ParseErrorV>((e2, 5)));
    assert(s_binary(t2, 0, i) == Ok::<(ExprV, int), ParseErrorV>((e2, 5)));
    lemma_lift(t2, 0, i, e2);
}

/// Operators that bind equally group from the left: `a x b y c` parses as
/// `y(x(a, b), c)` (so `8 - 3 - 2` is `(8 - 3) - 2`).
pub proof fn law_equal_operators_group_left(a: i32, b: i32, c: i32, x: TokenV, y: TokenV)
    requires
        op_of(x) is Some,
        op_of(y) is Some,
        binding_power(op_of(x)->Some_0) == binding_power(op_of(y)->Some_0),
    ensures
        s_expr(three_ints(a, x, b, y, c), 0) == Ok::<(ExprV, int), ParseErrorV>((
            bin(op_of(y)->Some_0, bin(op_of(x)->Some_0, ExprV::Int(a), ExprV::Int(b)), ExprV::Int(c)),
            5,
        )),
{
    let xo = op_of(x)->Some_0;
    let yo = op_of(y)->Some_0;
    let i = binding_power(xo);
    let t = three_ints(a, x, b, y, c);
    let ab = bin(xo, ExprV::Int(a), ExprV::Int(b));
    let e = bin(yo, ab, ExprV::Int(c));
    lemma_operand_atom(t, 0, i, a);
    lemma_binop_table(i, x);
    lemma_operand_atom(t, 2, i, b);
    lemma_binop_table(i, y);
    lemma_operand_atom(t, 4, i, c);
    lemma_rest_stops(t, 5, i, e);
    assert(s_binary_rest(t, 3, i, ab) == Ok::<(ExprV, int), ParseErrorV>((e, 5)));
    assert(s_binary_rest(t, 1, i, ExprV::Int(a)) == Ok::<(ExprV, int), ParseErrorV>((e, 5)));
    assert(s_binary(t, 0, i) == Ok::<(ExprV, int), ParseErrorV>((e, 5)));
    lemma_lift(t, 0, i, e);
}

/// The type checker's rules for the other expressions: `-` takes an `i32`
/// to `i32` and `!` a `bool` to `bool`; an `if` needs a `bool` condition and
/// two branches of one type, which is its type; a `while` needs a `bool`
/// condition and has the unit type; a call names a known function, passes
/// as many arguments as it has parameters, and has its return type; a name
/// has the type of its innermost binding.
pub proof fn law_expression_typing(e: ExprV, env: Seq<(Seq<char>, Type)>, funs: Seq<FunSigV>)
    requires
        s_check(e, env, funs) is Ok,
    ensures
        ({
            let t = s_check(e, env, funs)->Ok_0;
            &&& (e matches ExprV::Unary { op, expr } ==> s_check(*expr, env, funs)
                == Ok::<Type, SemaErrorV>(if op == UnaryOp::Neg { Type::I32 } else { Type::Bool })
                && t == (if op == UnaryOp::Neg { Type::I32 } else { Type::Bool }))
            &&& (e matches ExprV::If { cond, then_expr, else_expr } ==> s_check(*cond, env, funs)
                == Ok::<Type, SemaErrorV>(Type::Bool)
                && s_check(*then_expr, env, funs) == Ok::<Type, SemaErrorV>(t)
                && s_check(*else_expr, env, funs) == Ok::<Type, SemaErrorV>(t))
            &&& (e matches ExprV::While { cond, body } ==> s_check(*cond, env, funs)
                == Ok::<Type, SemaErrorV>(Type::Bool) && s_check(*body, env, funs) is Ok && t == Type::Unit)
            &&& (e matches ExprV::Call { name, args } ==> lookup_fun(funs, name) is Some
                && lookup_fun(funs, name)->Some_0.params.len() == args.len()
                && t == lookup_fun(funs, name)->Some_0.ret)
            &&& (e matches ExprV::Ident(n) ==> lookup_type(env, n) == Some(t))
            &&& (e matches ExprV::Int(_) ==> t == Type::I32)
            &&& (e matches ExprV::Bool(_) ==> t == Type::Bool)
        }),
{
}

/// A `let` checks only when its value has the declared type, and the
/// statements after it see the name at that type.
pub proof fn law_let_typing(
    name: Seq<char>,
    ty: Type,
    value: ExprV,
    rest: Seq<StmtV>,
    env: Seq<(Seq<char>, Type)>,
    defined: Seq<Seq<char>>,
    funs: Seq<FunSigV>,
)
    requires
        s_check_stmts(seq![StmtV::Let { name, ty, value }] + rest, env, defined, funs) is Ok,
    ensures
        s_check(value, env, funs) == Ok::<Type, SemaErrorV>(ty),
        s_check_stmts(seq![StmtV::Let { name, ty, value }] + rest, env, defined, funs)
            == s_check_stmts(rest, env.push((name, ty)), defined.push(name), funs),
        lookup_type(env.push((name, ty)), name) == Some(ty),
{
    let ss = seq![StmtV::Let { name, ty, value }] + rest;
    assert(ss[0] == StmtV::Let { name, ty, value });
    assert(ss.drop_first() =~= rest);
}

} // verus!
