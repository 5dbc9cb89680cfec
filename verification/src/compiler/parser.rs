//! Recursive-descent parser from tokens to the syntax tree.
use vstd::prelude::*;
use crate::compiler::lexer::{Token, TokenV, tokens_view};
use crate::compiler::ast::{
    BinOp, Expr, ExprV, Function, FunctionV, Param, ParamV, Program, ProgramV, Stmt, StmtV, Type,
    UnaryOp, expr_v, exprs_v, stmts_v, stmt_v, params_v, function_v, param_v, functions_v, program_v,
    lemma_exprs_v_push, lemma_stmts_v_push,
};

verus! {

/// Why parsing failed.
#[derive(Debug)]
pub enum ParseError {
    /// A required token was missing at the end of the input.
    UnexpectedEof,
    /// A required token was not the one found.
    Expected { expected: Token, got: Token },
    /// `fn` was not followed by a name.
    ExpectedFunctionName(Option<Token>),
    /// A parameter list held something other than a name.
    ExpectedParamName(Option<Token>),
    /// A type was expected.
    ExpectedType(Option<Token>),
    /// `let` was not followed by a name.
    ExpectedLetName(Option<Token>),
    /// No expression starts with this token (or the input ended).
    UnexpectedToken(Option<Token>),
}

pub enum ParseErrorV {
    UnexpectedEof,
    Expected { expected: TokenV, got: TokenV },
    ExpectedFunctionName(Option<TokenV>),
    ExpectedParamName(Option<TokenV>),
    ExpectedType(Option<TokenV>),
    ExpectedLetName(Option<TokenV>),
    UnexpectedToken(Option<TokenV>),
}

pub open spec fn opt_token_v(t: Option<Token>) -> Option<TokenV> {
    match t {
        Some(t) => Some(t@),
        None => None,
    }
}

pub open spec fn perr_v(e: ParseError) -> ParseErrorV {
    match e {
        ParseError::UnexpectedEof => ParseErrorV::UnexpectedEof,
        ParseError::Expected { expected, got } => ParseErrorV::Expected { expected: expected@, got: got@ },
        ParseError::ExpectedFunctionName(t) => ParseErrorV::ExpectedFunctionName(opt_token_v(t)),
        ParseError::ExpectedParamName(t) => ParseErrorV::ExpectedParamName(opt_token_v(t)),
        ParseError::ExpectedType(t) => ParseErrorV::ExpectedType(opt_token_v(t)),
        ParseError::ExpectedLetName(t) => ParseErrorV::ExpectedLetName(opt_token_v(t)),
        ParseError::UnexpectedToken(t) => ParseErrorV::UnexpectedToken(opt_token_v(t)),
    }
}

// ---------------------------------------------------------------------------
// The grammar, as functions from a token sequence and a position to the
// parsed item and the position just past it.
// ---------------------------------------------------------------------------

pub open spec fn tok_at(t: Seq<TokenV>, p: int) -> Option<TokenV> {
    if 0 <= p < t.len() { Some(t[p]) } else { None }
}

pub open spec fn is_at(t: Seq<TokenV>, p: int, x: TokenV) -> bool {
    0 <= p < t.len() && t[p] == x
}

/// A position returned by a sub-parse that is not in `lo..=t.len()`.  Every
/// successful sub-parse consumes its tokens, so this never holds; the
/// grammar tests it so that each recursive step is seen to move forward.
pub open spec fn out_of(q: int, lo: int, t: Seq<TokenV>) -> bool {
    q < lo || q > t.len()
}

pub open spec fn s_expect(t: Seq<TokenV>, p: int, x: TokenV) -> Result<int, ParseErrorV> {
    match tok_at(t, p) {
        None => Err(ParseErrorV::UnexpectedEof),
        Some(got) => if got == x { Ok(p + 1) } else { Err(ParseErrorV::Expected { expected: x, got }) },
    }
}

pub open spec fn s_type(t: Seq<TokenV>, p: int) -> Result<(Type, int), ParseErrorV> {
    match tok_at(t, p) {
        Some(TokenV::I32) => Ok((Type::I32, p + 1)),
        Some(TokenV::Bool) => Ok((Type::Bool, p + 1)),
        other => Err(ParseErrorV::ExpectedType(other)),
    }
}

/// The binary operator that token `x` denotes at precedence level `level`
/// (0: `||`, 1: `&&`, 2: `==` `!=`, 3: `<` `<=` `>` `>=`, 4: `+` `-`,
/// 5: `*` `/` `%`).
pub open spec fn binop_at(level: int, x: TokenV) -> Option<BinOp> {
    match x {
        TokenV::OrOr => if level == 0 { Some(BinOp::Or) } else { None },
        TokenV::AndAnd => if level == 1 { Some(BinOp::And) } else { None },
        TokenV::EqEq => if level == 2 { Some(BinOp::Eq) } else { None },
        TokenV::NotEq => if level == 2 { Some(BinOp::Ne) } else { None },
        TokenV::Lt => if level == 3 { Some(BinOp::Lt) } else { None },
        TokenV::Le => if level == 3 { Some(BinOp::Le) } else { None },
        TokenV::Gt => if level == 3 { Some(BinOp::Gt) } else { None },
        TokenV::Ge => if level == 3 { Some(BinOp::Ge) } else { None },
        TokenV::Plus => if level == 4 { Some(BinOp::Add) } else { None },
        TokenV::Minus => if level == 4 { Some(BinOp::Sub) } else { None },
        TokenV::Star => if level == 5 { Some(BinOp::Mul) } else { None },
        TokenV::Slash => if level == 5 { Some(BinOp::Div) } else { None },
        TokenV::Percent => if level == 5 { Some(BinOp::Rem) } else { None },
        _ => None,
    }
}

pub open spec fn lvl(level: usize) -> int {
    level as int
}

pub open spec fn level_rank(level: int) -> int {
    if 0 <= level < 5 { 20 - 3 * level } else { 5 }
}

/// `Expr = IfExpr | WhileExpr | OrExpr`
pub open spec fn s_expr(t: Seq<TokenV>, p: int) -> Result<(ExprV, int), ParseErrorV>
    decreases t.len() - p, 23int,
{
    if p < 0 || p > t.len() {
        Err(ParseErrorV::UnexpectedEof)
    } else if is_at(t, p, TokenV::If) {
        s_if(t, p)
    } else if is_at(t, p, TokenV::While) {
        s_while(t, p)
    } else {
        s_binary(t, p, 0)
    }
}

/// `IfExpr = "if" Expr "{" BlockBody "else" "{" BlockBody`
pub open spec fn s_if(t: Seq<TokenV>, p: int) -> Result<(ExprV, int), ParseErrorV>
    decreases t.len() - p, 22int,
{
    if p < 0 || p > t.len() {
        Err(ParseErrorV::UnexpectedEof)
    } else {
        match s_expect(t, p, TokenV::If) {
            Err(e) => Err(e),
            Ok(p1) => match s_expr(t, p1) {
                Err(e) => Err(e),
                Ok((c, p2)) => if out_of(p2, p1, t) {
                    Err(ParseErrorV::UnexpectedEof)
                } else {
                    match s_expect(t, p2, TokenV::LBrace) {
                        Err(e) => Err(e),
                        Ok(p3) => match s_block(t, p3) {
                            Err(e) => Err(e),
                            Ok((th, p4)) => if out_of(p4, p3, t) {
                                Err(ParseErrorV::UnexpectedEof)
                            } else {
                                match s_expect(t, p4, TokenV::Else) {
                                    Err(e) => Err(e),
                                    Ok(p5) => match s_expect(t, p5, TokenV::LBrace) {
                                        Err(e) => Err(e),
                                        Ok(p6) => match s_block(t, p6) {
                                            Err(e) => Err(e),
                                            Ok((el, p7)) => Ok((
                                                ExprV::If {
                                                    cond: Box::new(c),
                                                    then_expr: Box::new(th),
                                                    else_expr: Box::new(el),
                                                },
                                                p7,
                                            )),
                                        },
                                    },
                                }
                            },
                        },
                    }
                },
            },
        }
    }
}

/// `WhileExpr = "while" Expr "{" BlockBody`
pub open spec fn s_while(t: Seq<TokenV>, p: int) -> Result<(ExprV, int), ParseErrorV>
    decreases t.len() - p, 22int,
{
    if p < 0 || p > t.len() {
        Err(ParseErrorV::UnexpectedEof)
    } else {
        match s_expect(t, p, TokenV::While) {
            Err(e) => Err(e),
            Ok(p1) => match s_expr(t, p1) {
                Err(e) => Err(e),
                Ok((c, p2)) => if out_of(p2, p1, t) {
                    Err(ParseErrorV::UnexpectedEof)
                } else {
                    match s_expect(t, p2, TokenV::LBrace) {
                        Err(e) => Err(e),
                        Ok(p3) => match s_block(t, p3) {
                            Err(e) => Err(e),
                            Ok((b, p4)) => Ok((ExprV::While { cond: Box::new(c), body: Box::new(b) }, p4)),
                        },
                    }
                },
            },
        }
    }
}

/// The operand of a binary operator at `level`: the next level up, or a
/// unary expression above the multiplicative level.
pub open spec fn s_operand(t: Seq<TokenV>, p: int, level: int) -> Result<(ExprV, int), ParseErrorV>
    decreases t.len() - p, level_rank(level) - 1,
{
    if p < 0 || p > t.len() {
        Err(ParseErrorV::UnexpectedEof)
    } else if 0 <= level < 5 {
        s_binary(t, p, level + 1)
    } else {
        s_unary(t, p)
    }
}

/// A left-associative chain of operands joined by the operators of `level`.
pub open spec fn s_binary(t: Seq<TokenV>, p: int, level: int) -> Result<(ExprV, int), ParseErrorV>
    decreases t.len() - p, level_rank(level),
{
    if p < 0 || p > t.len() {
        Err(ParseErrorV::UnexpectedEof)
    } else {
        match s_operand(t, p, level) {
            Err(e) => Err(e),
            Ok((e, q)) => if out_of(q, p, t) {
                Err(ParseErrorV::UnexpectedEof)
            } else {
                s_binary_rest(t, q, level, e)
            },
        }
    }
}

pub open spec fn s_binary_rest(t: Seq<TokenV>, p: int, level: int, lhs: ExprV) -> Result<(ExprV, int), ParseErrorV>
    decreases t.len() - p, level_rank(level) - 2,
{
    if p < 0 || p > t.len() {
        Err(ParseErrorV::UnexpectedEof)
    } else {
        match tok_at(t, p) {
            Some(x) => match binop_at(level, x) {
                Some(op) => match s_operand(t, p + 1, level) {
                    Err(e) => Err(e),
                    Ok((r, q)) => if out_of(q, p + 1, t) {
                        Err(ParseErrorV::UnexpectedEof)
                    } else {
                        s_binary_rest(t, q, level, ExprV::Binary { op, lhs: Box::new(lhs), rhs: Box::new(r) })
                    },
                },
                None => Ok((lhs, p)),
            },
            None => Ok((lhs, p)),
        }
    }
}

/// `UnaryExpr = ("!" | "-") UnaryExpr | Primary`
pub open spec fn s_unary(t: Seq<TokenV>, p: int) -> Result<(ExprV, int), ParseErrorV>
    decreases t.len() - p, 3int,
{
    if p < 0 || p > t.len() {
        Err(ParseErrorV::UnexpectedEof)
    } else if is_at(t, p, TokenV::Bang) {
        match s_unary(t, p + 1) {
            Err(e) => Err(e),
            Ok((e, q)) => Ok((ExprV::Unary { op: UnaryOp::Not, expr: Box::new(e) }, q)),
        }
    } else if is_at(t, p, TokenV::Minus) {
        match s_unary(t, p + 1) {
            Err(e) => Err(e),
            Ok((e, q)) => Ok((ExprV::Unary { op: UnaryOp::Neg, expr: Box::new(e) }, q)),
        }
    } else {
        s_primary(t, p)
    }
}

/// `Primary = Int | "true" | "false" | Ident [ "(" Args ")" ] | "{" BlockBody | "(" Expr ")"`
pub open spec fn s_primary(t: Seq<TokenV>, p: int) -> Result<(ExprV, int), ParseErrorV>
    decreases t.len() - p, 2int,
{
    if p < 0 || p > t.len() {
        Err(ParseErrorV::UnexpectedEof)
    } else {
        match tok_at(t, p) {
            Some(TokenV::Int(v)) => Ok((ExprV::Int(v), p + 1)),
            Some(TokenV::True) => Ok((ExprV::Bool(true), p + 1)),
            Some(TokenV::False) => Ok((ExprV::Bool(false), p + 1)),
            Some(TokenV::Ident(n)) => if is_at(t, p + 1, TokenV::LParen) {
                match s_args(t, p + 2) {
                    Err(e) => Err(e),
                    Ok((args, q)) => match s_expect(t, q, TokenV::RParen) {
                        Err(e) => Err(e),
                        Ok(q2) => Ok((ExprV::Call { name: n, args }, q2)),
                    },
                }
            } else {
                Ok((ExprV::Ident(n), p + 1))
            },
            Some(TokenV::LBrace) => s_block(t, p + 1),
            Some(TokenV::LParen) => match s_expr(t, p + 1) {
                Err(e) => Err(e),
                Ok((e, q)) => match s_expect(t, q, TokenV::RParen) {
                    Err(err) => Err(err),
                    Ok(q2) => Ok((e, q2)),
                },
            },
            other => Err(ParseErrorV::UnexpectedToken(other)),
        }
    }
}

/// `Args = [ Expr { "," Expr } ]`, ending before a `)`.
pub open spec fn s_args(t: Seq<TokenV>, p: int) -> Result<(Seq<ExprV>, int), ParseErrorV>
    decreases t.len() - p, 25int,
{
    if p < 0 || p > t.len() {
        Err(ParseErrorV::UnexpectedEof)
    } else if is_at(t, p, TokenV::RParen) {
        Ok((seq![], p))
    } else {
        s_args_loop(t, p, seq![])
    }
}

pub open spec fn s_args_loop(t: Seq<TokenV>, p: int, acc: Seq<ExprV>) -> Result<(Seq<ExprV>, int), ParseErrorV>
    decreases t.len() - p, 24int,
{
    if p < 0 || p > t.len() {
        Err(ParseErrorV::UnexpectedEof)
    } else {
        match s_expr(t, p) {
            Err(e) => Err(e),
            Ok((e, q)) => if out_of(q, p + 1, t) {
                Err(ParseErrorV::UnexpectedEof)
            } else if is_at(t, q, TokenV::Comma) {
                s_args_loop(t, q + 1, acc.push(e))
            } else {
                Ok((acc.push(e), q))
            },
        }
    }
}

/// `BlockBody = { LetStmt | Expr ";" } Expr "}"`: the statements and the
/// final expression of a block whose `{` is already consumed.
pub open spec fn s_block(t: Seq<TokenV>, p: int) -> Result<(ExprV, int), ParseErrorV>
    decreases t.len() - p, 25int,
{
    if p < 0 || p > t.len() {
        Err(ParseErrorV::UnexpectedEof)
    } else {
        s_block_loop(t, p, seq![])
    }
}

pub open spec fn s_block_loop(t: Seq<TokenV>, p: int, stmts: Seq<StmtV>) -> Result<(ExprV, int), ParseErrorV>
    decreases t.len() - p, 24int,
{
    if p < 0 || p > t.len() {
        Err(ParseErrorV::UnexpectedEof)
    } else if is_at(t, p, TokenV::Let) {
        match s_let(t, p) {
            Err(e) => Err(e),
            Ok((st, q)) => if out_of(q, p + 1, t) {
                Err(ParseErrorV::UnexpectedEof)
            } else {
                s_block_loop(t, q, stmts.push(st))
            },
        }
    } else {
        match s_expr(t, p) {
            Err(e) => Err(e),
            Ok((e, q)) => if out_of(q, p + 1, t) {
                Err(ParseErrorV::UnexpectedEof)
            } else if is_at(t, q, TokenV::Semicolon) {
                s_block_loop(t, q + 1, stmts.push(StmtV::Expr(e)))
            } else {
                match s_expect(t, q, TokenV::RBrace) {
                    Err(err) => Err(err),
                    Ok(q2) => Ok((ExprV::Block { stmts, expr: Box::new(e) }, q2)),
                }
            },
        }
    }
}

/// `LetStmt = "let" Ident ":" Type "=" Expr ";"`
pub open spec fn s_let(t: Seq<TokenV>, p: int) -> Result<(StmtV, int), ParseErrorV>
    decreases t.len() - p, 23int,
{
    if p < 0 || p > t.len() {
        Err(ParseErrorV::UnexpectedEof)
    } else {
        match s_expect(t, p, TokenV::Let) {
            Err(e) => Err(e),
            Ok(p1) => match tok_at(t, p1) {
                Some(TokenV::Ident(name)) => match s_expect(t, p1 + 1, TokenV::Colon) {
                    Err(e) => Err(e),
                    Ok(p2) => match s_type(t, p2) {
                        Err(e) => Err(e),
                        Ok((ty, p3)) => match s_expect(t, p3, TokenV::Eq) {
                            Err(e) => Err(e),
                            Ok(p4) => match s_expr(t, p4) {
                                Err(e) => Err(e),
                                Ok((value, p5)) => match s_expect(t, p5, TokenV::Semicolon) {
                                    Err(e) => Err(e),
                                    Ok(p6) => Ok((StmtV::Let { name, ty, value }, p6)),
                                },
                            },
                        },
                    },
                },
                other => Err(ParseErrorV::ExpectedLetName(other)),
            },
        }
    }
}

/// `ParamList = [ Param { "," Param } ]`, ending before a `)`.
pub open spec fn s_params(t: Seq<TokenV>, p: int) -> Result<(Seq<ParamV>, int), ParseErrorV> {
    if is_at(t, p, TokenV::RParen) {
        Ok((seq![], p))
    } else {
        s_params_loop(t, p, seq![])
    }
}

pub open spec fn s_params_loop(t: Seq<TokenV>, p: int, acc: Seq<ParamV>) -> Result<(Seq<ParamV>, int), ParseErrorV>
    decreases t.len() - p,
{
    if p < 0 || p > t.len() {
        Err(ParseErrorV::UnexpectedEof)
    } else {
        match tok_at(t, p) {
            Some(TokenV::Ident(name)) => match s_expect(t, p + 1, TokenV::Colon) {
                Err(e) => Err(e),
                Ok(p2) => match s_type(t, p2) {
                    Err(e) => Err(e),
                    Ok((ty, p3)) => if is_at(t, p3, TokenV::Comma) {
                        s_params_loop(t, p3 + 1, acc.push(ParamV { name, ty }))
                    } else {
                        Ok((acc.push(ParamV { name, ty }), p3))
                    },
                },
            },
            other => Err(ParseErrorV::ExpectedParamName(other)),
        }
    }
}

/// `Function = "fn" Ident "(" ParamList ")" "->" Type "{" BlockBody`
pub open spec fn s_function(t: Seq<TokenV>, p: int) -> Result<(FunctionV, int), ParseErrorV> {
    match s_expect(t, p, TokenV::Fn) {
        Err(e) => Err(e),
        Ok(p1) => match tok_at(t, p1) {
            Some(TokenV::Ident(name)) => match s_expect(t, p1 + 1, TokenV::LParen) {
                Err(e) => Err(e),
                Ok(p2) => match s_params(t, p2) {
                    Err(e) => Err(e),
                    Ok((params, p3)) => match s_expect(t, p3, TokenV::RParen) {
                        Err(e) => Err(e),
                        Ok(p4) => match s_expect(t, p4, TokenV::Arrow) {
                            Err(e) => Err(e),
                            Ok(p5) => match s_type(t, p5) {
                                Err(e) => Err(e),
                                Ok((return_type, p6)) => match s_expect(t, p6, TokenV::LBrace) {
                                    Err(e) => Err(e),
                                    Ok(p7) => match s_block(t, p7) {
                                        Err(e) => Err(e),
                                        Ok((body, p8)) => Ok((FunctionV { name, params, return_type, body }, p8)),
                                    },
                                },
                            },
                        },
                    },
                },
            },
            other => Err(ParseErrorV::ExpectedFunctionName(other)),
        },
    }
}

/// `Program = { Function }`: functions until the tokens run out.
pub open spec fn s_program(t: Seq<TokenV>, p: int) -> Result<Seq<FunctionV>, ParseErrorV>
    decreases t.len() - p,
{
    if p < 0 || p >= t.len() {
        Ok(seq![])
    } else {
        match s_function(t, p) {
            Err(e) => Err(e),
            Ok((f, q)) => if out_of(q, p + 1, t) {
                Err(ParseErrorV::UnexpectedEof)
            } else {
                match s_program(t, q) {
                    Err(e) => Err(e),
                    Ok(fs) => Ok(seq![f] + fs),
                }
            },
        }
    }
}

/// The program that a token sequence denotes.
pub open spec fn spec_parse(t: Seq<TokenV>) -> Result<ProgramV, ParseErrorV> {
    match s_program(t, 0) {
        Ok(fs) => Ok(ProgramV { functions: fs }),
        Err(e) => Err(e),
    }
}

pub open spec fn parse_result_v(r: Result<Program, ParseError>) -> Result<ProgramV, ParseErrorV> {
    match r {
        Ok(p) => Ok(program_v(p)),
        Err(e) => Err(perr_v(e)),
    }
}


pub open spec fn expr_res(r: Result<Expr, ParseError>, pos: usize, s: Result<(ExprV, int), ParseErrorV>) -> bool {
    match s {
        Ok((e, q)) => r is Ok && expr_v(r->Ok_0) == e && pos == q,
        Err(err) => r is Err && perr_v(r->Err_0) == err,
    }
}

pub open spec fn stmt_res(r: Result<Stmt, ParseError>, pos: usize, s: Result<(StmtV, int), ParseErrorV>) -> bool {
    match s {
        Ok((e, q)) => r is Ok && stmt_v(r->Ok_0) == e && pos == q,
        Err(err) => r is Err && perr_v(r->Err_0) == err,
    }
}

pub open spec fn args_res(r: Result<Vec<Expr>, ParseError>, pos: usize, s: Result<(Seq<ExprV>, int), ParseErrorV>) -> bool {
    match s {
        Ok((e, q)) => r is Ok && exprs_v(r->Ok_0@) == e && pos == q,
        Err(err) => r is Err && perr_v(r->Err_0) == err,
    }
}

pub open spec fn params_res(r: Result<Vec<Param>, ParseError>, pos: usize, s: Result<(Seq<ParamV>, int), ParseErrorV>) -> bool {
    match s {
        Ok((e, q)) => r is Ok && params_v(r->Ok_0@) == e && pos == q,
        Err(err) => r is Err && perr_v(r->Err_0) == err,
    }
}

pub open spec fn type_res(r: Result<Type, ParseError>, pos: usize, s: Result<(Type, int), ParseErrorV>) -> bool {
    match s {
        Ok((e, q)) => r is Ok && r->Ok_0 == e && pos == q,
        Err(err) => r is Err && perr_v(r->Err_0) == err,
    }
}

pub open spec fn function_res(r: Result<Function, ParseError>, pos: usize, s: Result<(FunctionV, int), ParseErrorV>) -> bool {
    match s {
        Ok((e, q)) => r is Ok && function_v(r->Ok_0) == e && pos == q,
        Err(err) => r is Err && perr_v(r->Err_0) == err,
    }
}

/// A copy of a token.
pub fn clone_token(t: &Token) -> (r: Token)
    ensures
        r@ == t@,
{
    match t {
        Token::Fn => Token::Fn,
        Token::Let => Token::Let,
        Token::If => Token::If,
        Token::While => Token::While,
        Token::Else => Token::Else,
        Token::True => Token::True,
        Token::False => Token::False,
        Token::I32 => Token::I32,
        Token::Bool => Token::Bool,
        Token::Ident(s) => Token::Ident(s.clone()),
        Token::Int(v) => Token::Int(*v),
        Token::LParen => Token::LParen,
        Token::RParen => Token::RParen,
        Token::LBrace => Token::LBrace,
        Token::RBrace => Token::RBrace,
        Token::Colon => Token::Colon,
        Token::Comma => Token::Comma,
        Token::Semicolon => Token::Semicolon,
        Token::Arrow => Token::Arrow,
        Token::Plus => Token::Plus,
        Token::Minus => Token::Minus,
        Token::Star => Token::Star,
        Token::Slash => Token::Slash,
        Token::Percent => Token::Percent,
        Token::Eq => Token::Eq,
        Token::EqEq => Token::EqEq,
        Token::NotEq => Token::NotEq,
        Token::Lt => Token::Lt,
        Token::Le => Token::Le,
        Token::Gt => Token::Gt,
        Token::Ge => Token::Ge,
        Token::AndAnd => Token::AndAnd,
        Token::OrOr => Token::OrOr,
        Token::Bang => Token::Bang,
    }
}

fn clone_opt_token(t: Option<&Token>) -> (r: Option<Token>)
    ensures
        opt_token_v(r) == match t { Some(x) => Some(x@), None => None::<TokenV> },
{
    match t {
        Some(x) => Some(clone_token(x)),
        None => None,
    }
}

/// Whether two tokens are the same token (identifiers and integers
/// compared by their contents).
pub fn token_eq(a: &Token, b: &Token) -> (r: bool)
    ensures
        r == (a@ == b@),
{
    match a {
        Token::Ident(x) => match b {
            Token::Ident(y) => *x == *y,
            _ => false,
        },
        Token::Int(x) => match b {
            Token::Int(y) => *x == *y,
            _ => false,
        },
        Token::Fn => match b {
            Token::Fn => true,
            _ => false,
        },
        Token::Let => match b {
            Token::Let => true,
            _ => false,
        },
        Token::If => match b {
            Token::If => true,
            _ => false,
        },
        Token::While => match b {
            Token::While => true,
            _ => false,
        },
        Token::Else => match b {
            Token::Else => true,
            _ => false,
        },
        Token::True => match b {
            Token::True => true,
            _ => false,
        },
        Token::False => match b {
            Token::False => true,
            _ => false,
        },
        Token::I32 => match b {
            Token::I32 => true,
            _ => false,
        },
        Token::Bool => match b {
            Token::Bool => true,
            _ => false,
        },
        Token::LParen => match b {
            Token::LParen => true,
            _ => false,
        },
        Token::RParen => match b {
            Token::RParen => true,
            _ => false,
        },
        Token::LBrace => match b {
            Token::LBrace => true,
            _ => false,
        },
        Token::RBrace => match b {
            Token::RBrace => true,
            _ => false,
        },
        Token::Colon => match b {
            Token::Colon => true,
            _ => false,
        },
        Token::Comma => match b {
            Token::Comma => true,
            _ => false,
        },
        Token::Semicolon => match b {
            Token::Semicolon => true,
            _ => false,
        },
        Token::Arrow => match b {
            Token::Arrow => true,
            _ => false,
        },
        Token::Plus => match b {
            Token::Plus => true,
            _ => false,
        },
        Token::Minus => match b {
            Token::Minus => true,
            _ => false,
        },
        Token::Star => match b {
            Token::Star => true,
            _ => false,
        },
        Token::Slash => match b {
            Token::Slash => true,
            _ => false,
        },
        Token::Percent => match b {
            Token::Percent => true,
            _ => false,
        },
        Token::Eq => match b {
            Token::Eq => true,
            _ => false,
        },
        Token::EqEq => match b {
            Token::EqEq => true,
            _ => false,
        },
        Token::NotEq => match b {
            Token::NotEq => true,
            _ => false,
        },
        Token::Lt => match b {
            Token::Lt => true,
            _ => false,
        },
        Token::Le => match b {
            Token::Le => true,
            _ => false,
        },
        Token::Gt => match b {
            Token::Gt => true,
            _ => false,
        },
        Token::Ge => match b {
            Token::Ge => true,
            _ => false,
        },
        Token::AndAnd => match b {
            Token::AndAnd => true,
            _ => false,
        },
        Token::OrOr => match b {
            Token::OrOr => true,
            _ => false,
        },
        Token::Bang => match b {
            Token::Bang => true,
            _ => false,
        },
    }
}

/// The binary operator that a token denotes at a precedence level.
fn binop_of(level: usize, t: &Token) -> (r: Option<BinOp>)
    ensures
        r == binop_at(level as int, t@),
{
    match t {
        Token::OrOr => if level == 0 { Some(BinOp::Or) } else { None },
        Token::AndAnd => if level == 1 { Some(BinOp::And) } else { None },
        Token::EqEq => if level == 2 { Some(BinOp::Eq) } else { None },
        Token::NotEq => if level == 2 { Some(BinOp::Ne) } else { None },
        Token::Lt => if level == 3 { Some(BinOp::Lt) } else { None },
        Token::Le => if level == 3 { Some(BinOp::Le) } else { None },
        Token::Gt => if level == 3 { Some(BinOp::Gt) } else { None },
        Token::Ge => if level == 3 { Some(BinOp::Ge) } else { None },
        Token::Plus => if level == 4 { Some(BinOp::Add) } else { None },
        Token::Minus => if level == 4 { Some(BinOp::Sub) } else { None },
        Token::Star => if level == 5 { Some(BinOp::Mul) } else { None },
        Token::Slash => if level == 5 { Some(BinOp::Div) } else { None },
        Token::Percent => if level == 5 { Some(BinOp::Rem) } else { None },
        _ => None,
    }
}

/// Parses a whole token sequence into a program; see `spec_parse`.
pub fn parse(tokens: &[Token]) -> (res: Result<Program, ParseError>)
    ensures
        parse_result_v(res) == spec_parse(tokens_view(tokens@)),
{
    let mut p = Parser { tokens, pos: 0 };
    let mut functions: Vec<Function> = Vec::new();
    let ghost t = tokens_view(tokens@);
    while !p.eof()
        invariant
            p.tokens == tokens,
            p.pos <= tokens@.len(),
            t == tokens_view(tokens@),
            s_program(t, 0) == match s_program(t, p.pos as int) {
                Ok(fs) => Ok(functions_v(functions@) + fs),
                Err(e) => Err::<Seq<FunctionV>, ParseErrorV>(e),
            },
        decreases tokens@.len() - p.pos,
    {
        let ghost p0 = p.pos;
        let f = p.parse_function();
        match f {
            Ok(f) => {
                proof {
                    assert(functions_v(functions@.push(f)) =~= functions_v(functions@).push(function_v(f)));
                    match s_program(t, p.pos as int) {
                        Ok(fs) => {
                            assert(functions_v(functions@) + (seq![function_v(f)] + fs) =~= functions_v(functions@).push(function_v(f)) + fs);
                        },
                        Err(_) => {},
                    }
                }
                functions.push(f);
            },
            Err(e) => {
                return Err(e);
            },
        }
    }
    proof {
        assert(functions_v(functions@) + seq![] =~= functions_v(functions@));
    }
    Ok(Program { functions })
}

/// A cursor over a token sequence.
struct Parser<'a> {
    tokens: &'a [Token],
    pos: usize,
}

impl<'a> Parser<'a> {
    spec fn tv(&self) -> Seq<TokenV> {
        tokens_view(self.tokens@)
    }

    spec fn at(&self) -> int {
        self.pos as int
    }

    fn eof(&self) -> (b: bool)
        ensures
            b == (self.pos >= self.tokens@.len()),
    {
        self.pos >= self.tokens.len()
    }

    fn peek(&self) -> (r: Option<&'a Token>)
        ensures
            r is Some <==> self.pos < self.tokens@.len(),
            r is Some ==> *r->Some_0 == self.tokens@[self.pos as int],
    {
        if self.pos < self.tokens.len() {
            Some(&self.tokens[self.pos])
        } else {
            None
        }
    }

    fn next(&mut self) -> (r: Option<&'a Token>)
        requires
            old(self).pos <= old(self).tokens@.len(),
        ensures
            final(self).tokens == old(self).tokens,
            r is Some <==> old(self).pos < old(self).tokens@.len(),
            r is Some ==> *r->Some_0 == old(self).tokens@[old(self).pos as int] && final(self).pos == old(self).pos + 1,
            r is None ==> final(self).pos == old(self).pos,
            final(self).pos <= final(self).tokens@.len(),
    {
        if self.pos < self.tokens.len() {
            let t = &self.tokens[self.pos];
            self.pos = self.pos + 1;
            Some(t)
        } else {
            None
        }
    }

    fn expect(&mut self, expected: &Token) -> (r: Result<(), ParseError>)
        requires
            old(self).pos <= old(self).tokens@.len(),
        ensures
            final(self).tokens == old(self).tokens,
            final(self).pos <= final(self).tokens@.len(),
            match s_expect(old(self).tv(), old(self).pos as int, expected@) {
                Ok(q) => r is Ok && final(self).pos == q,
                Err(e) => r is Err && perr_v(r->Err_0) == e,
            },
    {
        match self.next() {
            None => Err(ParseError::UnexpectedEof),
            Some(tok) => {
                if token_eq(tok, expected) {
                    Ok(())
                } else {
                    Err(ParseError::Expected { expected: clone_token(expected), got: clone_token(tok) })
                }
            },
        }
    }

    fn parse_type(&mut self) -> (r: Result<Type, ParseError>)
        requires
            old(self).pos <= old(self).tokens@.len(),
        ensures
            final(self).tokens == old(self).tokens,
            final(self).pos <= final(self).tokens@.len(),
            r is Ok ==> old(self).pos < final(self).pos,
            type_res(r, final(self).pos, s_type(old(self).tv(), old(self).pos as int)),
    {
        match self.next() {
            Some(Token::I32) => Ok(Type::I32),
            Some(Token::Bool) => Ok(Type::Bool),
            other => Err(ParseError::ExpectedType(clone_opt_token(other))),
        }
    }

    fn parse_expr(&mut self) -> (r: Result<Expr, ParseError>)
        requires
            old(self).pos <= old(self).tokens@.len(),
        ensures
            final(self).tokens == old(self).tokens,
            final(self).pos <= final(self).tokens@.len(),
            r is Ok ==> old(self).pos < final(self).pos,
            expr_res(r, final(self).pos, s_expr(old(self).tv(), old(self).pos as int)),
        decreases old(self).tokens@.len() - old(self).pos, 23int,
    {
        if matches!(self.peek(), Some(Token::If)) {
            return self.parse_if();
        }
        if matches!(self.peek(), Some(Token::While)) {
            return self.parse_while();
        }
        self.parse_or()
    }

    fn parse_if(&mut self) -> (r: Result<Expr, ParseError>)
        requires
            old(self).pos <= old(self).tokens@.len(),
        ensures
            final(self).tokens == old(self).tokens,
            final(self).pos <= final(self).tokens@.len(),
            r is Ok ==> old(self).pos < final(self).pos,
            expr_res(r, final(self).pos, s_if(old(self).tv(), old(self).pos as int)),
        decreases old(self).tokens@.len() - old(self).pos, 22int,
    {
        self.expect(&Token::If)?;
        let cond = self.parse_expr()?;
        self.expect(&Token::LBrace)?;
        let then_expr = self.parse_block_body()?;
        self.expect(&Token::Else)?;
        self.expect(&Token::LBrace)?;
        let else_expr = self.parse_block_body()?;
        Ok(Expr::If { cond: Box::new(cond), then_expr: Box::new(then_expr), else_expr: Box::new(else_expr) })
    }

    fn parse_while(&mut self) -> (r: Result<Expr, ParseError>)
        requires
            old(self).pos <= old(self).tokens@.len(),
        ensures
            final(self).tokens == old(self).tokens,
            final(self).pos <= final(self).tokens@.len(),
            r is Ok ==> old(self).pos < final(self).pos,
            expr_res(r, final(self).pos, s_while(old(self).tv(), old(self).pos as int)),
        decreases old(self).tokens@.len() - old(self).pos, 22int,
    {
        self.expect(&Token::While)?;
        let cond = self.parse_expr()?;
        self.expect(&Token::LBrace)?;
        let body = self.parse_block_body()?;
        Ok(Expr::While { cond: Box::new(cond), body: Box::new(body) })
    }

    fn parse_or(&mut self) -> (r: Result<Expr, ParseError>)
        requires
            old(self).pos <= old(self).tokens@.len(),
        ensures
            final(self).tokens == old(self).tokens,
            final(self).pos <= final(self).tokens@.len(),
            r is Ok ==> old(self).pos < final(self).pos,
            expr_res(r, final(self).pos, s_binary(old(self).tv(), old(self).pos as int, 0)),
        decreases old(self).tokens@.len() - old(self).pos, level_rank(0) + 1,
    {
        self.parse_binary(0)
    }

    fn parse_and(&mut self) -> (r: Result<Expr, ParseError>)
        requires
            old(self).pos <= old(self).tokens@.len(),
        ensures
            final(self).tokens == old(self).tokens,
            final(self).pos <= final(self).tokens@.len(),
            r is Ok ==> old(self).pos < final(self).pos,
            expr_res(r, final(self).pos, s_binary(old(self).tv(), old(self).pos as int, 1)),
        decreases old(self).tokens@.len() - old(self).pos, level_rank(1) + 1,
    {
        self.parse_binary(1)
    }

    fn parse_eq(&mut self) -> (r: Result<Expr, ParseError>)
        requires
            old(self).pos <= old(self).tokens@.len(),
        ensures
            final(self).tokens == old(self).tokens,
            final(self).pos <= final(self).tokens@.len(),
            r is Ok ==> old(self).pos < final(self).pos,
            expr_res(r, final(self).pos, s_binary(old(self).tv(), old(self).pos as int, 2)),
        decreases old(self).tokens@.len() - old(self).pos, level_rank(2) + 1,
    {
        self.parse_binary(2)
    }

    fn parse_cmp(&mut self) -> (r: Result<Expr, ParseError>)
        requires
            old(self).pos <= old(self).tokens@.len(),
        ensures
            final(self).tokens == old(self).tokens,
            final(self).pos <= final(self).tokens@.len(),
            r is Ok ==> old(self).pos < final(self).pos,
            expr_res(r, final(self).pos, s_binary(old(self).tv(), old(self).at(), 3)),
        decreases old(self).tokens@.len() - old(self).pos, level_rank(3) + 1,
    {
        self.parse_binary(3)
    }

    fn parse_add(&mut self) -> (r: Result<Expr, ParseError>)
        requires
            old(self).pos <= old(self).tokens@.len(),
        ensures
            final(self).tokens == old(self).tokens,
            final(self).pos <= final(self).tokens@.len(),
            r is Ok ==> old(self).pos < final(self).pos,
            expr_res(r, final(self).pos, s_binary(old(self).tv(), old(self).pos as int, 4)),
        decreases old(self).tokens@.len() - old(self).pos, level_rank(4) + 1,
    {
        self.parse_binary(4)
    }

    fn parse_mul(&mut self) -> (r: Result<Expr, ParseError>)
        requires
            old(self).pos <= old(self).tokens@.len(),
        ensures
            final(self).tokens == old(self).tokens,
            final(self).pos <= final(self).tokens@.len(),
            r is Ok ==> old(self).pos < final(self).pos,
            expr_res(r, final(self).pos, s_binary(old(self).tv(), old(self).pos as int, 5)),
        decreases old(self).tokens@.len() - old(self).pos, level_rank(5) + 1,
    {
        self.parse_binary(5)
    }

    fn parse_operand(&mut self, level: usize) -> (r: Result<Expr, ParseError>)
        requires
            old(self).pos <= old(self).tokens@.len(),
            level <= 5,
        ensures
            final(self).tokens == old(self).tokens,
            final(self).pos <= final(self).tokens@.len(),
            r is Ok ==> old(self).pos < final(self).pos,
            expr_res(r, final(self).pos, s_operand(old(self).tv(), old(self).at(), lvl(level))),
        decreases old(self).tokens@.len() - old(self).pos, level_rank(lvl(level)) - 1,
    {
        if level == 0 {
            self.parse_and()
        } else if level == 1 {
            self.parse_eq()
        } else if level == 2 {
            self.parse_cmp()
        } else if level == 3 {
            self.parse_add()
        } else if level == 4 {
            self.parse_mul()
        } else {
            self.parse_unary()
        }
    }

    fn parse_binary(&mut self, level: usize) -> (r: Result<Expr, ParseError>)
        requires
            old(self).pos <= old(self).tokens@.len(),
            level <= 5,
        ensures
            final(self).tokens == old(self).tokens,
            final(self).pos <= final(self).tokens@.len(),
            r is Ok ==> old(self).pos < final(self).pos,
            expr_res(r, final(self).pos, s_binary(old(self).tv(), old(self).pos as int, level as int)),
        decreases old(self).tokens@.len() - old(self).pos, level_rank(level as int),
    {
        let ghost t = self.tv();
        let ghost toks = self.tokens;
        let ghost p0 = self.pos as int;
        let mut expr = self.parse_operand(level)?;
        loop
            invariant
                self.tokens == toks,
                old(self).tokens == toks,
                old(self).pos == p0,
                t == tokens_view(toks@),
                level <= 5,
                p0 < self.pos <= self.tokens@.len(),
                s_binary(t, p0, level as int) == s_binary_rest(t, self.pos as int, level as int, expr_v(expr)),
            decreases self.tokens@.len() - self.pos,
        {
            let op = match self.peek() {
                Some(tok) => binop_of(level, tok),
                None => None,
            };
            match op {
                None => {
                    return Ok(expr);
                },
                Some(op) => {
                    self.next();
                    let rhs = self.parse_operand(level)?;
                    expr = Expr::Binary { op, lhs: Box::new(expr), rhs: Box::new(rhs) };
                },
            }
        }
    }

    fn parse_unary(&mut self) -> (r: Result<Expr, ParseError>)
        requires
            old(self).pos <= old(self).tokens@.len(),
        ensures
            final(self).tokens == old(self).tokens,
            final(self).pos <= final(self).tokens@.len(),
            r is Ok ==> old(self).pos < final(self).pos,
            expr_res(r, final(self).pos, s_unary(old(self).tv(), old(self).pos as int)),
        decreases old(self).tokens@.len() - old(self).pos, 3int,
    {
        match self.peek() {
            Some(Token::Bang) => {
                self.next();
                let expr = self.parse_unary()?;
                Ok(Expr::Unary { op: UnaryOp::Not, expr: Box::new(expr) })
            },
            Some(Token::Minus) => {
                self.next();
                let expr = self.parse_unary()?;
                Ok(Expr::Unary { op: UnaryOp::Neg, expr: Box::new(expr) })
            },
            _ => self.parse_primary(),
        }
    }

    fn parse_primary(&mut self) -> (r: Result<Expr, ParseError>)
        requires
            old(self).pos <= old(self).tokens@.len(),
        ensures
            final(self).tokens == old(self).tokens,
            final(self).pos <= final(self).tokens@.len(),
            r is Ok ==> old(self).pos < final(self).pos,
            expr_res(r, final(self).pos, s_primary(old(self).tv(), old(self).pos as int)),
        decreases old(self).tokens@.len() - old(self).pos, 2int,
    {
        match self.next() {
            Some(Token::Int(v)) => Ok(Expr::Int(*v)),
            Some(Token::True) => Ok(Expr::Bool(true)),
            Some(Token::False) => Ok(Expr::Bool(false)),
            Some(Token::Ident(name)) => {
                if matches!(self.peek(), Some(Token::LParen)) {
                    self.next();
                    let args = self.parse_args()?;
                    self.expect(&Token::RParen)?;
                    Ok(Expr::Call { name: name.clone(), args })
                } else {
                    Ok(Expr::Ident(name.clone()))
                }
            },
            Some(Token::LBrace) => self.parse_block_body(),
            Some(Token::LParen) => {
                let expr = self.parse_expr()?;
                self.expect(&Token::RParen)?;
                Ok(expr)
            },
            other => Err(ParseError::UnexpectedToken(clone_opt_token(other))),
        }
    }

    fn parse_args(&mut self) -> (r: Result<Vec<Expr>, ParseError>)
        requires
            old(self).pos <= old(self).tokens@.len(),
        ensures
            final(self).tokens == old(self).tokens,
            final(self).pos <= final(self).tokens@.len(),
            r is Ok ==> old(self).pos <= final(self).pos,
            args_res(r, final(self).pos, s_args(old(self).tv(), old(self).pos as int)),
        decreases old(self).tokens@.len() - old(self).pos, 25int,
    {
        let ghost t = self.tv();
        let ghost toks = self.tokens;
        let ghost p0 = self.pos as int;
        let mut args: Vec<Expr> = Vec::new();
        if matches!(self.peek(), Some(Token::RParen)) {
            return Ok(args);
        }
        loop
            invariant
                self.tokens == toks,
                old(self).tokens == toks,
                old(self).pos == p0,
                t == tokens_view(toks@),
                p0 <= self.pos <= self.tokens@.len(),
                s_args(t, p0) == s_args_loop(t, self.pos as int, exprs_v(args@)),
            decreases self.tokens@.len() - self.pos,
        {
            let expr = self.parse_expr()?;
            proof {
                lemma_exprs_v_push(args@, expr);
            }
            args.push(expr);
            if matches!(self.peek(), Some(Token::Comma)) {
                self.next();
                continue;
            }
            return Ok(args);
        }
    }

    fn parse_block_body(&mut self) -> (r: Result<Expr, ParseError>)
        requires
            old(self).pos <= old(self).tokens@.len(),
        ensures
            final(self).tokens == old(self).tokens,
            final(self).pos <= final(self).tokens@.len(),
            r is Ok ==> old(self).pos < final(self).pos,
            expr_res(r, final(self).pos, s_block(old(self).tv(), old(self).pos as int)),
        decreases old(self).tokens@.len() - old(self).pos, 25int,
    {
        let ghost t = self.tv();
        let ghost toks = self.tokens;
        let ghost p0 = self.pos as int;
        let mut stmts: Vec<Stmt> = Vec::new();
        loop
            invariant
                self.tokens == toks,
                old(self).tokens == toks,
                old(self).pos == p0,
                t == tokens_view(toks@),
                p0 <= self.pos <= self.tokens@.len(),
                s_block(t, p0) == s_block_loop(t, self.pos as int, stmts_v(stmts@)),
            decreases self.tokens@.len() - self.pos,
        {
            if matches!(self.peek(), Some(Token::Let)) {
                let st = self.parse_let_stmt()?;
                proof {
                    lemma_stmts_v_push(stmts@, st);
                }
                stmts.push(st);
                continue;
            }
            let expr = self.parse_expr()?;
            if matches!(self.peek(), Some(Token::Semicolon)) {
                self.next();
                let st = Stmt::Expr(expr);
                proof {
                    lemma_stmts_v_push(stmts@, st);
                }
                stmts.push(st);
                continue;
            }
            self.expect(&Token::RBrace)?;
            return Ok(Expr::Block { stmts, expr: Box::new(expr) });
        }
    }

    fn parse_let_stmt(&mut self) -> (r: Result<Stmt, ParseError>)
        requires
            old(self).pos <= old(self).tokens@.len(),
        ensures
            final(self).tokens == old(self).tokens,
            final(self).pos <= final(self).tokens@.len(),
            r is Ok ==> old(self).pos < final(self).pos,
            stmt_res(r, final(self).pos, s_let(old(self).tv(), old(self).pos as int)),
        decreases old(self).tokens@.len() - old(self).pos, 23int,
    {
        self.expect(&Token::Let)?;
        let name = match self.next() {
            Some(Token::Ident(s)) => s.clone(),
            other => {
                return Err(ParseError::ExpectedLetName(clone_opt_token(other)));
            },
        };
        self.expect(&Token::Colon)?;
        let ty = self.parse_type()?;
        self.expect(&Token::Eq)?;
        let value = self.parse_expr()?;
        self.expect(&Token::Semicolon)?;
        Ok(Stmt::Let { name, ty, value })
    }

    fn parse_params(&mut self) -> (r: Result<Vec<Param>, ParseError>)
        requires
            old(self).pos <= old(self).tokens@.len(),
        ensures
            final(self).tokens == old(self).tokens,
            final(self).pos <= final(self).tokens@.len(),
            r is Ok ==> old(self).pos <= final(self).pos,
            params_res(r, final(self).pos, s_params(old(self).tv(), old(self).pos as int)),
    {
        let ghost t = self.tv();
        let ghost toks = self.tokens;
        let ghost p0 = self.pos as int;
        let mut params: Vec<Param> = Vec::new();
        assert(params_v(params@) =~= seq![]);
        if matches!(self.peek(), Some(Token::RParen)) {
            return Ok(params);
        }
        loop
            invariant
                self.tokens == toks,
                old(self).tokens == toks,
                old(self).pos == p0,
                t == tokens_view(toks@),
                p0 <= self.pos <= self.tokens@.len(),
                s_params(t, p0) == s_params_loop(t, self.pos as int, params_v(params@)),
            decreases self.tokens@.len() - self.pos,
        {
            let name = match self.next() {
                Some(Token::Ident(s)) => s.clone(),
                other => {
                    return Err(ParseError::ExpectedParamName(clone_opt_token(other)));
                },
            };
            self.expect(&Token::Colon)?;
            let ty = self.parse_type()?;
            let prm = Param { name, ty };
            proof {
                assert(params_v(params@.push(prm)) =~= params_v(params@).push(param_v(prm)));
            }
            params.push(prm);
            if matches!(self.peek(), Some(Token::Comma)) {
                self.next();
                continue;
            }
            return Ok(params);
        }
    }

    fn parse_function(&mut self) -> (r: Result<Function, ParseError>)
        requires
            old(self).pos <= old(self).tokens@.len(),
        ensures
            final(self).tokens == old(self).tokens,
            final(self).pos <= final(self).tokens@.len(),
            r is Ok ==> old(self).pos < final(self).pos,
            function_res(r, final(self).pos, s_function(old(self).tv(), old(self).pos as int)),
    {
        self.expect(&Token::Fn)?;
        let name = match self.next() {
            Some(Token::Ident(s)) => s.clone(),
            other => {
                return Err(ParseError::ExpectedFunctionName(clone_opt_token(other)));
            },
        };
        self.expect(&Token::LParen)?;
        let params = self.parse_params()?;
        self.expect(&Token::RParen)?;
        self.expect(&Token::Arrow)?;
        let return_type = self.parse_type()?;
        self.expect(&Token::LBrace)?;
        let body = self.parse_block_body()?;
        Ok(Function { name, params, return_type, body })
    }
}

} // verus!
