//! Parsing two token sequences one after the other: the functions of the
//! first, then those of the second.
//!
//! The grammar reads a token sequence only from the position it starts at
//! up to the position it stops at (and, for an expression, the token just
//! after, to see that no operator follows).  So a parse that succeeds on one
//! sequence gives the same result on any sequence that holds the same
//! tokens there, moved by any offset.
use vstd::prelude::*;
use crate::compiler::lexer::TokenV;
use crate::compiler::ast::{ExprV, StmtV, ParamV, ProgramV};
use crate::compiler::parser::{
    tok_at, is_at, out_of, s_expect, s_type, s_expr, s_if, s_while, s_operand, s_binary, s_binary_rest,
    s_unary, s_primary, s_args, s_args_loop, s_block, s_block_loop, s_let, s_params, s_params_loop,
    s_function, s_program, spec_parse, level_rank, binop_at, ParseErrorV,
};

verus! {

/// `t2` holds the tokens of `t1` from position `p` on, moved by `d`.
pub open spec fn agree(t1: Seq<TokenV>, t2: Seq<TokenV>, d: int, p: int) -> bool {
    &&& 0 <= p
    &&& 0 <= d
    &&& t1.len() + d <= t2.len()
    &&& forall|i: int| #![trigger t1[i]] p <= i < t1.len() ==> t2[i + d] == t1[i]
}

/// What `t1` shows at `q` is what `t2` shows at `q + d`: a token of `t1`,
/// or the end of both.
pub open spec fn fits(t1: Seq<TokenV>, t2: Seq<TokenV>, d: int, q: int) -> bool {
    q < t1.len() || t1.len() + d == t2.len()
}

proof fn lemma_tok(t1: Seq<TokenV>, t2: Seq<TokenV>, d: int, p: int, i: int)
    requires
        agree(t1, t2, d, p),
        p <= i <= t1.len(),
        fits(t1, t2, d, i),
    ensures
        tok_at(t2, i + d) == tok_at(t1, i),
{
    if i < t1.len() {
        assert(t2[i + d] == t1[i]);
    }
}

proof fn lemma_expect(t1: Seq<TokenV>, t2: Seq<TokenV>, d: int, p: int, x: TokenV)
    requires
        agree(t1, t2, d, p),
        p <= t1.len(),
    ensures
        s_expect(t1, p, x) matches Ok(q) ==> q == p + 1 && q <= t1.len()
            && s_expect(t2, p + d, x) == Ok::<int, ParseErrorV>(q + d),
{
    if p < t1.len() {
        lemma_tok(t1, t2, d, p, p);
    }
}

proof fn lemma_type(t1: Seq<TokenV>, t2: Seq<TokenV>, d: int, p: int)
    requires
        agree(t1, t2, d, p),
        p <= t1.len(),
    ensures
        s_type(t1, p) matches Ok((ty, q)) ==> q == p + 1 && q <= t1.len()
            && s_type(t2, p + d) == Ok::<(crate::compiler::ast::Type, int), ParseErrorV>((ty, q + d)),
{
    if p < t1.len() {
        lemma_tok(t1, t2, d, p, p);
    }
}

proof fn t_expr(t1: Seq<TokenV>, t2: Seq<TokenV>, d: int, p: int)
    requires
        agree(t1, t2, d, p),
    ensures
        s_expr(t1, p) matches Ok((e, q)) ==> p <= q <= t1.len()
            && (fits(t1, t2, d, q) ==> s_expr(t2, p + d) == Ok::<(ExprV, int), ParseErrorV>((e, q + d))),
    decreases t1.len() - p, 23int,
{
    if p <= t1.len() {
        if fits(t1, t2, d, p) {
            lemma_tok(t1, t2, d, p, p);
        }
        if is_at(t1, p, TokenV::If) {
            t_if(t1, t2, d, p);
        } else if is_at(t1, p, TokenV::While) {
            t_while(t1, t2, d, p);
        } else {
            t_binary(t1, t2, d, p, 0);
        }
    }
}

proof fn t_if(t1: Seq<TokenV>, t2: Seq<TokenV>, d: int, p: int)
    requires
        agree(t1, t2, d, p),
    ensures
        s_if(t1, p) matches Ok((e, q)) ==> p < q <= t1.len()
            && s_if(t2, p + d) == Ok::<(ExprV, int), ParseErrorV>((e, q + d)),
    decreases t1.len() - p, 22int,
{
    if p <= t1.len() {
        lemma_expect(t1, t2, d, p, TokenV::If);
        if let Ok(p1) = s_expect(t1, p, TokenV::If) {
            t_expr(t1, t2, d, p1);
            if let Ok((c, p2)) = s_expr(t1, p1) {
                if !out_of(p2, p1, t1) {
                    lemma_expect(t1, t2, d, p2, TokenV::LBrace);
                    if let Ok(p3) = s_expect(t1, p2, TokenV::LBrace) {
                        t_block(t1, t2, d, p3);
                        if let Ok((th, p4)) = s_block(t1, p3) {
                            if !out_of(p4, p3, t1) {
                                lemma_expect(t1, t2, d, p4, TokenV::Else);
                                if let Ok(p5) = s_expect(t1, p4, TokenV::Else) {
                                    lemma_expect(t1, t2, d, p5, TokenV::LBrace);
                                    if let Ok(p6) = s_expect(t1, p5, TokenV::LBrace) {
                                        t_block(t1, t2, d, p6);
                                    }
                                }
                            }
                        }
                    }
                }
            }
        }
    }
}

proof fn t_while(t1: Seq<TokenV>, t2: Seq<TokenV>, d: int, p: int)
    requires
        agree(t1, t2, d, p),
    ensures
        s_while(t1, p) matches Ok((e, q)) ==> p < q <= t1.len()
            && s_while(t2, p + d) == Ok::<(ExprV, int), ParseErrorV>((e, q + d)),
    decreases t1.len() - p, 22int,
{
    if p <= t1.len() {
        lemma_expect(t1, t2, d, p, TokenV::While);
        if let Ok(p1) = s_expect(t1, p, TokenV::While) {
            t_expr(t1, t2, d, p1);
            if let Ok((c, p2)) = s_expr(t1, p1) {
                if !out_of(p2, p1, t1) {
                    lemma_expect(t1, t2, d, p2, TokenV::LBrace);
                    if let Ok(p3) = s_expect(t1, p2, TokenV::LBrace) {
                        t_block(t1, t2, d, p3);
                    }
                }
            }
        }
    }
}

proof fn t_operand(t1: Seq<TokenV>, t2: Seq<TokenV>, d: int, p: int, level: int)
    requires
        agree(t1, t2, d, p),
    ensures
        s_operand(t1, p, level) matches Ok((e, q)) ==> p <= q <= t1.len()
            && (fits(t1, t2, d, q) ==> s_operand(t2, p + d, level) == Ok::<(ExprV, int), ParseErrorV>((e, q + d))),
    decreases t1.len() - p, level_rank(level) - 1,
{
    if p <= t1.len() {
        if 0 <= level < 5 {
            t_binary(t1, t2, d, p, level + 1);
        } else {
            t_unary(t1, t2, d, p);
        }
    }
}

proof fn t_binary(t1: Seq<TokenV>, t2: Seq<TokenV>, d: int, p: int, level: int)
    requires
        agree(t1, t2, d, p),
    ensures
        s_binary(t1, p, level) matches Ok((e, q)) ==> p <= q <= t1.len()
            && (fits(t1, t2, d, q) ==> s_binary(t2, p + d, level) == Ok::<(ExprV, int), ParseErrorV>((e, q + d))),
    decreases t1.len() - p, level_rank(level),
{
    if p <= t1.len() {
        t_operand(t1, t2, d, p, level);
        if let Ok((e, q)) = s_operand(t1, p, level) {
            if !out_of(q, p, t1) {
                t_binary_rest(t1, t2, d, q, level, e);
            }
        }
    }
}

proof fn t_binary_rest(t1: Seq<TokenV>, t2: Seq<TokenV>, d: int, p: int, level: int, lhs: ExprV)
    requires
        agree(t1, t2, d, p),
    ensures
        s_binary_rest(t1, p, level, lhs) matches Ok((e, q)) ==> p <= q <= t1.len()
            && (fits(t1, t2, d, q) ==> s_binary_rest(t2, p + d, level, lhs) == Ok::<(ExprV, int), ParseErrorV>((e, q + d))),
    decreases t1.len() - p, level_rank(level) - 2,
{
    if p <= t1.len() {
        if fits(t1, t2, d, p) {
            lemma_tok(t1, t2, d, p, p);
        }
        if p < t1.len() {
            if let Some(op) = binop_at(level, t1[p]) {
                t_operand(t1, t2, d, p + 1, level);
                if let Ok((r, q)) = s_operand(t1, p + 1, level) {
                    if !out_of(q, p + 1, t1) {
                        t_binary_rest(t1, t2, d, q, level, ExprV::Binary { op, lhs: Box::new(lhs), rhs: Box::new(r) });
                    }
                }
            }
        }
    }
}

proof fn t_unary(t1: Seq<TokenV>, t2: Seq<TokenV>, d: int, p: int)
    requires
        agree(t1, t2, d, p),
    ensures
        s_unary(t1, p) matches Ok((e, q)) ==> p <= q <= t1.len()
            && (fits(t1, t2, d, q) ==> s_unary(t2, p + d) == Ok::<(ExprV, int), ParseErrorV>((e, q + d))),
    decreases t1.len() - p, 3int,
{
    if p <= t1.len() {
        if fits(t1, t2, d, p) {
            lemma_tok(t1, t2, d, p, p);
        }
        if is_at(t1, p, TokenV::Bang) || is_at(t1, p, TokenV::Minus) {
            t_unary(t1, t2, d, p + 1);
        } else {
            t_primary(t1, t2, d, p);
        }
    }
}

proof fn t_primary(t1: Seq<TokenV>, t2: Seq<TokenV>, d: int, p: int)
    requires
        agree(t1, t2, d, p),
    ensures
        s_primary(t1, p) matches Ok((e, q)) ==> p <= q <= t1.len()
            && (fits(t1, t2, d, q) ==> s_primary(t2, p + d) == Ok::<(ExprV, int), ParseErrorV>((e, q + d))),
    decreases t1.len() - p, 2int,
{
    if p < t1.len() {
        lemma_tok(t1, t2, d, p, p);
        if fits(t1, t2, d, p + 1) {
            lemma_tok(t1, t2, d, p, p + 1);
        }
        match t1[p] {
            TokenV::Ident(n) => {
                if is_at(t1, p + 1, TokenV::LParen) {
                    t_args(t1, t2, d, p + 2);
                    if let Ok((args, q)) = s_args(t1, p + 2) {
                        lemma_expect(t1, t2, d, q, TokenV::RParen);
                    }
                }
            },
            TokenV::LBrace => {
                t_block(t1, t2, d, p + 1);
            },
            TokenV::LParen => {
                t_expr(t1, t2, d, p + 1);
                if let Ok((e, q)) = s_expr(t1, p + 1) {
                    lemma_expect(t1, t2, d, q, TokenV::RParen);
                }
            },
            _ => {},
        }
    }
}

proof fn t_args(t1: Seq<TokenV>, t2: Seq<TokenV>, d: int, p: int)
    requires
        agree(t1, t2, d, p),
    ensures
        s_args(t1, p) matches Ok((es, q)) ==> p <= q <= t1.len()
            && (fits(t1, t2, d, q) ==> s_args(t2, p + d) == Ok::<(Seq<ExprV>, int), ParseErrorV>((es, q + d))),
    decreases t1.len() - p, 25int,
{
    if p <= t1.len() {
        if fits(t1, t2, d, p) {
            lemma_tok(t1, t2, d, p, p);
        }
        if !is_at(t1, p, TokenV::RParen) {
            t_args_loop(t1, t2, d, p, seq![]);
        }
    }
}

proof fn t_args_loop(t1: Seq<TokenV>, t2: Seq<TokenV>, d: int, p: int, acc: Seq<ExprV>)
    requires
        agree(t1, t2, d, p),
    ensures
        s_args_loop(t1, p, acc) matches Ok((es, q)) ==> p <= q <= t1.len()
            && (fits(t1, t2, d, q) ==> s_args_loop(t2, p + d, acc) == Ok::<(Seq<ExprV>, int), ParseErrorV>((es, q + d))),
    decreases t1.len() - p, 24int,
{
    if p <= t1.len() {
        t_expr(t1, t2, d, p);
        if let Ok((e, q)) = s_expr(t1, p) {
            if !out_of(q, p + 1, t1) {
                if fits(t1, t2, d, q) {
                    lemma_tok(t1, t2, d, p, q);
                }
                if is_at(t1, q, TokenV::Comma) {
                    t_args_loop(t1, t2, d, q + 1, acc.push(e));
                }
            }
        }
    }
}

proof fn t_block(t1: Seq<TokenV>, t2: Seq<TokenV>, d: int, p: int)
    requires
        agree(t1, t2, d, p),
    ensures
        s_block(t1, p) matches Ok((e, q)) ==> p < q <= t1.len()
            && s_block(t2, p + d) == Ok::<(ExprV, int), ParseErrorV>((e, q + d)),
    decreases t1.len() - p, 25int,
{
    if p <= t1.len() {
        t_block_loop(t1, t2, d, p, seq![]);
    }
}

proof fn t_block_loop(t1: Seq<TokenV>, t2: Seq<TokenV>, d: int, p: int, stmts: Seq<StmtV>)
    requires
        agree(t1, t2, d, p),
    ensures
        s_block_loop(t1, p, stmts) matches Ok((e, q)) ==> p < q <= t1.len()
            && s_block_loop(t2, p + d, stmts) == Ok::<(ExprV, int), ParseErrorV>((e, q + d)),
    decreases t1.len() - p, 24int,
{
    if p <= t1.len() {
        if fits(t1, t2, d, p) {
            lemma_tok(t1, t2, d, p, p);
        }
        if is_at(t1, p, TokenV::Let) {
            t_let(t1, t2, d, p);
            if let Ok((st, q)) = s_let(t1, p) {
                if !out_of(q, p + 1, t1) {
                    t_block_loop(t1, t2, d, q, stmts.push(st));
                }
            }
        } else {
            t_expr(t1, t2, d, p);
            if let Ok((e, q)) = s_expr(t1, p) {
                if !out_of(q, p + 1, t1) {
                    if fits(t1, t2, d, q) {
                        lemma_tok(t1, t2, d, p, q);
                    }
                    if is_at(t1, q, TokenV::Semicolon) {
                        t_block_loop(t1, t2, d, q + 1, stmts.push(StmtV::Expr(e)));
                    } else {
                        lemma_expect(t1, t2, d, q, TokenV::RBrace);
                    }
                }
            }
        }
    }
}

proof fn t_let(t1: Seq<TokenV>, t2: Seq<TokenV>, d: int, p: int)
    requires
        agree(t1, t2, d, p),
    ensures
        s_let(t1, p) matches Ok((st, q)) ==> p < q <= t1.len()
            && s_let(t2, p + d) == Ok::<(StmtV, int), ParseErrorV>((st, q + d)),
    decreases t1.len() - p, 23int,
{
    if p <= t1.len() {
        lemma_expect(t1, t2, d, p, TokenV::Let);
        if let Ok(p1) = s_expect(t1, p, TokenV::Let) {
            if p1 < t1.len() {
                lemma_tok(t1, t2, d, p, p1);
                if let TokenV::Ident(name) = t1[p1] {
                    lemma_expect(t1, t2, d, p1 + 1, TokenV::Colon);
                    if let Ok(p2) = s_expect(t1, p1 + 1, TokenV::Colon) {
                        lemma_type(t1, t2, d, p2);
                        if let Ok((ty, p3)) = s_type(t1, p2) {
                            lemma_expect(t1, t2, d, p3, TokenV::Eq);
                            if let Ok(p4) = s_expect(t1, p3, TokenV::Eq) {
                                t_expr(t1, t2, d, p4);
                                if let Ok((value, p5)) = s_expr(t1, p4) {
                                    lemma_expect(t1, t2, d, p5, TokenV::Semicolon);
                                }
                            }
                        }
                    }
                }
            }
        }
    }
}

proof fn t_params_loop(t1: Seq<TokenV>, t2: Seq<TokenV>, d: int, p: int, acc: Seq<ParamV>)
    requires
        agree(t1, t2, d, p),
    ensures
        s_params_loop(t1, p, acc) matches Ok((ps, q)) ==> p <= q <= t1.len()
            && (fits(t1, t2, d, q) ==> s_params_loop(t2, p + d, acc) == Ok::<(Seq<ParamV>, int), ParseErrorV>((ps, q + d))),
    decreases t1.len() - p,
{
    if p < t1.len() {
        lemma_tok(t1, t2, d, p, p);
        if let TokenV::Ident(name) = t1[p] {
            lemma_expect(t1, t2, d, p + 1, TokenV::Colon);
            if let Ok(p2) = s_expect(t1, p + 1, TokenV::Colon) {
                lemma_type(t1, t2, d, p2);
                if let Ok((ty, p3)) = s_type(t1, p2) {
                    if fits(t1, t2, d, p3) {
                        lemma_tok(t1, t2, d, p, p3);
                    }
                    if is_at(t1, p3, TokenV::Comma) {
                        t_params_loop(t1, t2, d, p3 + 1, acc.push(ParamV { name, ty }));
                    }
                }
            }
        }
    }
}

proof fn t_params(t1: Seq<TokenV>, t2: Seq<TokenV>, d: int, p: int)
    requires
        agree(t1, t2, d, p),
        p <= t1.len(),
    ensures
        s_params(t1, p) matches Ok((ps, q)) ==> p <= q <= t1.len()
            && (fits(t1, t2, d, q) ==> s_params(t2, p + d) == Ok::<(Seq<ParamV>, int), ParseErrorV>((ps, q + d))),
{
    if fits(t1, t2, d, p) {
        lemma_tok(t1, t2, d, p, p);
    }
    if !is_at(t1, p, TokenV::RParen) {
        t_params_loop(t1, t2, d, p, seq![]);
    }
}

proof fn t_function(t1: Seq<TokenV>, t2: Seq<TokenV>, d: int, p: int)
    requires
        agree(t1, t2, d, p),
        p <= t1.len(),
    ensures
        s_function(t1, p) matches Ok((f, q)) ==> p < q <= t1.len()
            && s_function(t2, p + d) == Ok::<(crate::compiler::ast::FunctionV, int), ParseErrorV>((f, q + d)),
{
    lemma_expect(t1, t2, d, p, TokenV::Fn);
    if let Ok(p1) = s_expect(t1, p, TokenV::Fn) {
        if p1 < t1.len() {
            lemma_tok(t1, t2, d, p, p1);
            if let TokenV::Ident(name) = t1[p1] {
                lemma_expect(t1, t2, d, p1 + 1, TokenV::LParen);
                if let Ok(p2) = s_expect(t1, p1 + 1, TokenV::LParen) {
                    t_params(t1, t2, d, p2);
                    if let Ok((params, p3)) = s_params(t1, p2) {
                        lemma_expect(t1, t2, d, p3, TokenV::RParen);
                        if let Ok(p4) = s_expect(t1, p3, TokenV::RParen) {
                            lemma_expect(t1, t2, d, p4, TokenV::Arrow);
                            if let Ok(p5) = s_expect(t1, p4, TokenV::Arrow) {
                                lemma_type(t1, t2, d, p5);
                                if let Ok((rt, p6)) = s_type(t1, p5) {
                                    lemma_expect(t1, t2, d, p6, TokenV::LBrace);
                                    if let Ok(p7) = s_expect(t1, p6, TokenV::LBrace) {
                                        t_block(t1, t2, d, p7);
                                    }
                                }
                            }
                        }
                    }
                }
            }
        }
    }
}

/// The functions of `t1` from `p` on are those of `t2` from `p + d` on,
/// when `t2` ends where `t1` does.
proof fn t_program(t1: Seq<TokenV>, t2: Seq<TokenV>, d: int, p: int)
    requires
        agree(t1, t2, d, p),
        t1.len() + d == t2.len(),
    ensures
        s_program(t1, p) is Ok ==> s_program(t2, p + d) == s_program(t1, p),
    decreases t1.len() - p,
{
    if p < t1.len() {
        t_function(t1, t2, d, p);
        if let Ok((f, q)) = s_function(t1, p) {
            if !out_of(q, p + 1, t1) {
                t_program(t1, t2, d, q);
            }
        }
    }
}

/// The functions of `a` from `p` on, then those of `b`.
proof fn lemma_program_join(a: Seq<TokenV>, b: Seq<TokenV>, p: int)
    requires
        0 <= p <= a.len(),
        s_program(a, p) is Ok,
        s_program(b, 0) is Ok,
    ensures
        s_program(a + b, p) == Ok::<Seq<crate::compiler::ast::FunctionV>, ParseErrorV>(
            s_program(a, p)->Ok_0 + s_program(b, 0)->Ok_0,
        ),
    decreases a.len() - p,
{
    let ab = a + b;
    if p == a.len() {
        assert(agree(b, ab, a.len() as int, 0)) by {
            assert forall|i: int| #![trigger b[i]] 0 <= i < b.len() implies ab[i + a.len()] == b[i] by {}
        }
        t_program(b, ab, a.len() as int, 0);
        assert(Seq::<crate::compiler::ast::FunctionV>::empty() + s_program(b, 0)->Ok_0 =~= s_program(b, 0)->Ok_0);
    } else {
        assert(agree(a, ab, 0, p)) by {
            assert forall|i: int| #![trigger a[i]] p <= i < a.len() implies ab[i + 0] == a[i] by {}
        }
        t_function(a, ab, 0, p);
        let (f, q) = s_function(a, p)->Ok_0;
        lemma_program_join(a, b, q);
        let rest = s_program(a, q)->Ok_0;
        assert(seq![f] + (rest + s_program(b, 0)->Ok_0) =~= (seq![f] + rest) + s_program(b, 0)->Ok_0);
    }
}

/// Parsing two token sequences one after the other gives the functions of
/// the first, then those of the second; no tokens parse to no functions.
pub proof fn law_parse_joined(a: Seq<TokenV>, b: Seq<TokenV>)
    ensures
        spec_parse(Seq::<TokenV>::empty()) == Ok::<ProgramV, ParseErrorV>(ProgramV { functions: seq![] }),
        spec_parse(a) is Ok && spec_parse(b) is Ok ==> spec_parse(a + b) == Ok::<ProgramV, ParseErrorV>(
            ProgramV { functions: spec_parse(a)->Ok_0.functions + spec_parse(b)->Ok_0.functions },
        ),
{
    if spec_parse(a) is Ok && spec_parse(b) is Ok {
        lemma_program_join(a, b, 0);
    }
}

} // verus!
