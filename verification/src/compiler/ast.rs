//! The syntax tree of the source language.
use vstd::prelude::*;

verus! {

/// A value type of the source language; `Unit` is the type of a `while` loop.
#[derive(Debug, Clone, Copy, PartialEq, Eq, Structural)]
pub enum Type {
    I32,
    Bool,
    Unit,
}

/// A binary operator.
#[derive(Debug, Clone, Copy, PartialEq, Eq, Structural)]
pub enum BinOp {
    Add,
    Sub,
    Mul,
    Div,
    Rem,
    Lt,
    Le,
    Gt,
    Ge,
    Eq,
    Ne,
    And,
    Or,
}

/// A unary operator.
#[derive(Debug, Clone, Copy, PartialEq, Eq, Structural)]
pub enum UnaryOp {
    Neg,
    Not,
}

/// An expression.
#[derive(Debug, PartialEq)]
pub enum Expr {
    Int(i32),
    Bool(bool),
    Ident(String),
    Unary { op: UnaryOp, expr: Box<Expr> },
    Binary { op: BinOp, lhs: Box<Expr>, rhs: Box<Expr> },
    If { cond: Box<Expr>, then_expr: Box<Expr>, else_expr: Box<Expr> },
    While { cond: Box<Expr>, body: Box<Expr> },
    Call { name: String, args: Vec<Expr> },
    Block { stmts: Vec<Stmt>, expr: Box<Expr> },
}

/// A statement of a block.
#[derive(Debug, PartialEq)]
pub enum Stmt {
    Let { name: String, ty: Type, value: Expr },
    Expr(Expr),
}

/// A function parameter.
#[derive(Debug, Clone, PartialEq)]
pub struct Param {
    pub name: String,
    pub ty: Type,
}

/// A function definition.
#[derive(Debug, PartialEq)]
pub struct Function {
    pub name: String,
    pub params: Vec<Param>,
    pub return_type: Type,
    pub body: Expr,
}

/// A whole program: its functions in source order.
#[derive(Debug, PartialEq)]
pub struct Program {
    pub functions: Vec<Function>,
}

/// An expression with its names as character sequences.
pub enum ExprV {
    Int(i32),
    Bool(bool),
    Ident(Seq<char>),
    Unary { op: UnaryOp, expr: Box<ExprV> },
    Binary { op: BinOp, lhs: Box<ExprV>, rhs: Box<ExprV> },
    If { cond: Box<ExprV>, then_expr: Box<ExprV>, else_expr: Box<ExprV> },
    While { cond: Box<ExprV>, body: Box<ExprV> },
    Call { name: Seq<char>, args: Seq<ExprV> },
    Block { stmts: Seq<StmtV>, expr: Box<ExprV> },
}

pub enum StmtV {
    Let { name: Seq<char>, ty: Type, value: ExprV },
    Expr(ExprV),
}

pub struct ParamV {
    pub name: Seq<char>,
    pub ty: Type,
}

pub struct FunctionV {
    pub name: Seq<char>,
    pub params: Seq<ParamV>,
    pub return_type: Type,
    pub body: ExprV,
}

pub struct ProgramV {
    pub functions: Seq<FunctionV>,
}

pub open spec fn expr_v(e: Expr) -> ExprV
    decreases e,
{
    match e {
        Expr::Int(v) => ExprV::Int(v),
        Expr::Bool(b) => ExprV::Bool(b),
        Expr::Ident(n) => ExprV::Ident(n@),
        Expr::Unary { op, expr } => ExprV::Unary { op, expr: Box::new(expr_v(*expr)) },
        Expr::Binary { op, lhs, rhs } => ExprV::Binary {
            op,
            lhs: Box::new(expr_v(*lhs)),
            rhs: Box::new(expr_v(*rhs)),
        },
        Expr::If { cond, then_expr, else_expr } => ExprV::If {
            cond: Box::new(expr_v(*cond)),
            then_expr: Box::new(expr_v(*then_expr)),
            else_expr: Box::new(expr_v(*else_expr)),
        },
        Expr::While { cond, body } => ExprV::While {
            cond: Box::new(expr_v(*cond)),
            body: Box::new(expr_v(*body)),
        },
        Expr::Call { name, args } => ExprV::Call {
            name: name@,
            args: exprs_v(args@),
        },
        Expr::Block { stmts, expr } => ExprV::Block {
            stmts: stmts_v(stmts@),
            expr: Box::new(expr_v(*expr)),
        },
    }
}

pub open spec fn exprs_v(es: Seq<Expr>) -> Seq<ExprV>
    decreases es,
{
    if es.len() == 0 {
        seq![]
    } else {
        exprs_v(es.drop_last()).push(expr_v(es.last()))
    }
}

pub open spec fn stmts_v(ss: Seq<Stmt>) -> Seq<StmtV>
    decreases ss,
{
    if ss.len() == 0 {
        seq![]
    } else {
        stmts_v(ss.drop_last()).push(stmt_v(ss.last()))
    }
}

pub open spec fn stmt_v(s: Stmt) -> StmtV
    decreases s,
{
    match s {
        Stmt::Let { name, ty, value } => StmtV::Let { name: name@, ty, value: expr_v(value) },
        Stmt::Expr(e) => StmtV::Expr(expr_v(e)),
    }
}

pub open spec fn param_v(p: Param) -> ParamV {
    ParamV { name: p.name@, ty: p.ty }
}

pub open spec fn params_v(ps: Seq<Param>) -> Seq<ParamV> {
    ps.map_values(|p: Param| param_v(p))
}

pub open spec fn function_v(f: Function) -> FunctionV {
    FunctionV { name: f.name@, params: params_v(f.params@), return_type: f.return_type, body: expr_v(f.body) }
}

pub open spec fn functions_v(fs: Seq<Function>) -> Seq<FunctionV> {
    fs.map_values(|f: Function| function_v(f))
}

pub open spec fn program_v(p: Program) -> ProgramV {
    ProgramV { functions: functions_v(p.functions@) }
}

pub proof fn lemma_exprs_v_push(es: Seq<Expr>, e: Expr)
    ensures
        exprs_v(es.push(e)) == exprs_v(es).push(expr_v(e)),
        exprs_v(es).len() == es.len(),
{
    assert(es.push(e).drop_last() =~= es);
    lemma_exprs_v_len(es);
}

pub proof fn lemma_exprs_v_len(es: Seq<Expr>)
    ensures
        exprs_v(es).len() == es.len(),
    decreases es.len(),
{
    if es.len() > 0 {
        lemma_exprs_v_len(es.drop_last());
    }
}

pub proof fn lemma_stmts_v_push(ss: Seq<Stmt>, s: Stmt)
    ensures
        stmts_v(ss.push(s)) == stmts_v(ss).push(stmt_v(s)),
{
    assert(ss.push(s).drop_last() =~= ss);
}

pub proof fn lemma_exprs_v_index(es: Seq<Expr>)
    ensures
        exprs_v(es).len() == es.len(),
        forall|i: int| 0 <= i < es.len() ==> #[trigger] exprs_v(es)[i] == expr_v(es[i]),
    decreases es.len(),
{
    if es.len() > 0 {
        lemma_exprs_v_index(es.drop_last());
        assert forall|i: int| 0 <= i < es.len() implies #[trigger] exprs_v(es)[i] == expr_v(es[i]) by {
            if i < es.len() - 1 {
                assert(es.drop_last()[i] == es[i]);
            }
        }
    }
}

pub proof fn lemma_stmts_v_index(ss: Seq<Stmt>)
    ensures
        stmts_v(ss).len() == ss.len(),
        forall|i: int| 0 <= i < ss.len() ==> #[trigger] stmts_v(ss)[i] == stmt_v(ss[i]),
    decreases ss.len(),
{
    if ss.len() > 0 {
        lemma_stmts_v_index(ss.drop_last());
        assert forall|i: int| 0 <= i < ss.len() implies #[trigger] stmts_v(ss)[i] == stmt_v(ss[i]) by {
            if i < ss.len() - 1 {
                assert(ss.drop_last()[i] == ss[i]);
            }
        }
    }
}

} // verus!
