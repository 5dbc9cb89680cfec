//! Every name in a program read from source text is an identifier, and so
//! plain: the machine reads back what the compiler writes for any program
//! that it lexes, parses and lowers.
use vstd::prelude::*;
use crate::text::{spec_is_ident_char, spec_is_ident_start, spec_is_whitespace, spec_is_digit};
use crate::readback::{plain, plain_char};
use crate::readback::lowering::{expr_names_ok, args_names_ok, stmt_names_ok, stmts_names_ok};
use crate::compiler::ast::{ExprV, StmtV};
use crate::compiler::parser::{
    s_expr, s_if, s_while, s_operand, s_binary, s_binary_rest, s_unary, s_primary, s_args, s_args_loop,
    s_block, s_block_loop, s_let, level_rank, s_params, s_params_loop, s_function, s_program, spec_parse,
};
use crate::compiler::ast::ParamV;
use crate::readback::lowering::{function_names_ok, program_names_ok, law_lowered_program_reads_back};
use crate::compiler::codegen::spec_lower;
use crate::compiler::ir as cir;
use crate::vm::ir as vir;
use crate::vm::reader::{IrErr, spec_parse_module};
use crate::readback::program::tr_module;
use crate::compiler::lexer::{
    TokenV, LexError, lex_from, spec_lex, word_token, punct_at, cons_token, ident_end, digits_end,
    comment_end, lemma_ident_end, lemma_digits_end, lemma_comment_end,
};

verus! {

/// Every identifier token of `t` has a plain name.
pub open spec fn tokens_plain(t: Seq<TokenV>) -> bool {
    forall|k: int| 0 <= k < t.len() ==> (#[trigger] t[k] matches TokenV::Ident(n) ==> plain(n))
}

proof fn lemma_ident_char_plain(c: char)
    requires
        spec_is_ident_char(c),
    ensures
        plain_char(c),
{
}

proof fn lemma_cons_plain(x: TokenV, r: Result<Seq<TokenV>, LexError>)
    requires
        x matches TokenV::Ident(n) ==> plain(n),
        r matches Ok(ts) ==> tokens_plain(ts),
    ensures
        cons_token(x, r) matches Ok(ts) ==> tokens_plain(ts),
{
    if let Ok(rest) = r {
        let all = seq![x] + rest;
        assert forall|k: int| 0 <= k < all.len() implies (#[trigger] all[k] matches TokenV::Ident(n) ==> plain(n)) by {
            if k > 0 {
                assert(all[k] == rest[k - 1]);
            }
        }
    }
}

/// The tokens that the lexer reads from any position name only plain identifiers.
proof fn lemma_lex_from_plain(s: Seq<char>, i: int)
    ensures
        lex_from(s, i) matches Ok(ts) ==> tokens_plain(ts),
    decreases s.len() - i,
{
    if i < 0 || i >= s.len() {
    } else {
        let c = s[i];
        if spec_is_whitespace(c) {
            lemma_lex_from_plain(s, i + 1);
        } else if c == '/' {
            if 0 <= i + 1 < s.len() && s[i + 1] == '/' {
                lemma_comment_end(s, i + 1);
                lemma_lex_from_plain(s, comment_end(s, i + 1));
            } else {
                lemma_lex_from_plain(s, i + 1);
                lemma_cons_plain(TokenV::Slash, lex_from(s, i + 1));
            }
        } else if spec_is_digit(c) {
            lemma_digits_end(s, i);
            let j = digits_end(s, i);
            lemma_lex_from_plain(s, j);
        } else if spec_is_ident_start(c) {
            lemma_ident_end(s, i);
            let j = ident_end(s, i);
            let w = s.subrange(i, j);
            assert forall|k: int| 0 <= k < w.len() implies plain_char(#[trigger] w[k]) by {
                assert(w[k] == s[i + k]);
                lemma_ident_char_plain(s[i + k]);
            }
            lemma_lex_from_plain(s, j);
            lemma_cons_plain(word_token(w), lex_from(s, j));
        } else {
            match punct_at(s, i) {
                Ok((x, j)) => {
                    lemma_lex_from_plain(s, j);
                    lemma_cons_plain(x, lex_from(s, j));
                },
                Err(_) => {},
            }
        }
    }
}

/// The tokens of any source text name only plain identifiers.
pub proof fn lemma_lex_plain(s: Seq<char>)
    ensures
        spec_lex(s) matches Ok(ts) ==> tokens_plain(ts),
{
    lemma_lex_from_plain(s, 0);
}

proof fn lemma_args_all(s: Seq<ExprV>)
    ensures
        args_names_ok(s) <==> forall|k: int| 0 <= k < s.len() ==> expr_names_ok(#[trigger] s[k]),
    decreases s.len(),
{
    if s.len() > 0 {
        lemma_args_all(s.drop_first());
        if forall|k: int| 0 <= k < s.len() ==> expr_names_ok(#[trigger] s[k]) {
            assert forall|k: int| 0 <= k < s.drop_first().len() implies expr_names_ok(#[trigger] s.drop_first()[k]) by {
                assert(s.drop_first()[k] == s[k + 1]);
            }
        }
        if args_names_ok(s) {
            assert forall|k: int| 0 <= k < s.len() implies expr_names_ok(#[trigger] s[k]) by {
                if k > 0 {
                    assert(s[k] == s.drop_first()[k - 1]);
                }
            }
        }
    }
}

proof fn lemma_stmts_all(s: Seq<StmtV>)
    ensures
        stmts_names_ok(s) <==> forall|k: int| 0 <= k < s.len() ==> stmt_names_ok(#[trigger] s[k]),
    decreases s.len(),
{
    if s.len() > 0 {
        lemma_stmts_all(s.drop_first());
        if forall|k: int| 0 <= k < s.len() ==> stmt_names_ok(#[trigger] s[k]) {
            assert forall|k: int| 0 <= k < s.drop_first().len() implies stmt_names_ok(#[trigger] s.drop_first()[k]) by {
                assert(s.drop_first()[k] == s[k + 1]);
            }
        }
        if stmts_names_ok(s) {
            assert forall|k: int| 0 <= k < s.len() implies stmt_names_ok(#[trigger] s[k]) by {
                if k > 0 {
                    assert(s[k] == s.drop_first()[k - 1]);
                }
            }
        }
    }
}

proof fn lemma_p_expr(t: Seq<TokenV>, p: int)
    requires
        tokens_plain(t),
    ensures
        s_expr(t, p) matches Ok((e, _)) ==> expr_names_ok(e),
    decreases t.len() - p, 23int,
{
    if p < 0 || p > t.len() {
    } else if 0 <= p < t.len() && t[p] == TokenV::If {
        lemma_p_if(t, p);
    } else if 0 <= p < t.len() && t[p] == TokenV::While {
        lemma_p_while(t, p);
    } else {
        lemma_p_binary(t, p, 0);
    }
}

proof fn lemma_p_if(t: Seq<TokenV>, p: int)
    requires
        tokens_plain(t),
    ensures
        s_if(t, p) matches Ok((e, _)) ==> expr_names_ok(e),
    decreases t.len() - p, 22int,
{
    if 0 <= p < t.len() && t[p] == TokenV::If {
        let p1 = p + 1;
        lemma_p_expr(t, p1);
        if let Ok((c, p2)) = s_expr(t, p1) {
            if p1 <= p2 <= t.len() && p2 < t.len() && t[p2] == TokenV::LBrace {
                let p3 = p2 + 1;
                lemma_p_block(t, p3);
                if let Ok((th, p4)) = s_block(t, p3) {
                    if p3 <= p4 <= t.len() && p4 + 1 < t.len() && t[p4] == TokenV::Else && t[p4 + 1] == TokenV::LBrace {
                        lemma_p_block(t, p4 + 2);
                    }
                }
            }
        }
    }
}

proof fn lemma_p_while(t: Seq<TokenV>, p: int)
    requires
        tokens_plain(t),
    ensures
        s_while(t, p) matches Ok((e, _)) ==> expr_names_ok(e),
    decreases t.len() - p, 22int,
{
    if 0 <= p < t.len() && t[p] == TokenV::While {
        let p1 = p + 1;
        lemma_p_expr(t, p1);
        if let Ok((c, p2)) = s_expr(t, p1) {
            if p1 <= p2 < t.len() && t[p2] == TokenV::LBrace {
                lemma_p_block(t, p2 + 1);
            }
        }
    }
}

proof fn lemma_p_operand(t: Seq<TokenV>, p: int, level: int)
    requires
        tokens_plain(t),
    ensures
        s_operand(t, p, level) matches Ok((e, _)) ==> expr_names_ok(e),
    decreases t.len() - p, level_rank(level) - 1,
{
    if p < 0 || p > t.len() {
    } else if 0 <= level < 5 {
        lemma_p_binary(t, p, level + 1);
    } else {
        lemma_p_unary(t, p);
    }
}

proof fn lemma_p_binary(t: Seq<TokenV>, p: int, level: int)
    requires
        tokens_plain(t),
    ensures
        s_binary(t, p, level) matches Ok((e, _)) ==> expr_names_ok(e),
    decreases t.len() - p, level_rank(level),
{
    if 0 <= p <= t.len() {
        lemma_p_operand(t, p, level);
        if let Ok((e, q)) = s_operand(t, p, level) {
            if p <= q <= t.len() {
                lemma_p_binary_rest(t, q, level, e);
            }
        }
    }
}

proof fn lemma_p_binary_rest(t: Seq<TokenV>, p: int, level: int, lhs: ExprV)
    requires
        tokens_plain(t),
        expr_names_ok(lhs),
    ensures
        s_binary_rest(t, p, level, lhs) matches Ok((e, _)) ==> expr_names_ok(e),
    decreases t.len() - p, level_rank(level) - 2,
{
    if 0 <= p < t.len() {
        if let Some(op) = crate::compiler::parser::binop_at(level, t[p]) {
            lemma_p_operand(t, p + 1, level);
            if let Ok((r, q)) = s_operand(t, p + 1, level) {
                if p + 1 <= q <= t.len() {
                    let e = ExprV::Binary { op, lhs: Box::new(lhs), rhs: Box::new(r) };
                    lemma_p_binary_rest(t, q, level, e);
                }
            }
        }
    }
}

proof fn lemma_p_unary(t: Seq<TokenV>, p: int)
    requires
        tokens_plain(t),
    ensures
        s_unary(t, p) matches Ok((e, _)) ==> expr_names_ok(e),
    decreases t.len() - p, 3int,
{
    if p < 0 || p > t.len() {
    } else if 0 <= p < t.len() && (t[p] == TokenV::Bang || t[p] == TokenV::Minus) {
        lemma_p_unary(t, p + 1);
    } else {
        lemma_p_primary(t, p);
    }
}

proof fn lemma_p_primary(t: Seq<TokenV>, p: int)
    requires
        tokens_plain(t),
    ensures
        s_primary(t, p) matches Ok((e, _)) ==> expr_names_ok(e),
    decreases t.len() - p, 2int,
{
    if 0 <= p < t.len() {
        assert(t[p] matches TokenV::Ident(n) ==> plain(n));
        match t[p] {
            TokenV::Ident(n) => {
                if p + 1 < t.len() && t[p + 1] == TokenV::LParen {
                    lemma_p_args(t, p + 2);
                    if let Ok((args, q)) = s_args(t, p + 2) {
                        lemma_args_all(args);
                    }
                }
            },
            TokenV::LBrace => {
                lemma_p_block(t, p + 1);
            },
            TokenV::LParen => {
                lemma_p_expr(t, p + 1);
            },
            _ => {},
        }
    }
}

proof fn lemma_p_args(t: Seq<TokenV>, p: int)
    requires
        tokens_plain(t),
    ensures
        s_args(t, p) matches Ok((es, _)) ==> forall|k: int| 0 <= k < es.len() ==> expr_names_ok(#[trigger] es[k]),
    decreases t.len() - p, 25int,
{
    if 0 <= p <= t.len() && !(p < t.len() && t[p] == TokenV::RParen) {
        lemma_p_args_loop(t, p, seq![]);
    }
}

proof fn lemma_p_args_loop(t: Seq<TokenV>, p: int, acc: Seq<ExprV>)
    requires
        tokens_plain(t),
        forall|k: int| 0 <= k < acc.len() ==> expr_names_ok(#[trigger] acc[k]),
    ensures
        s_args_loop(t, p, acc) matches Ok((es, _)) ==> forall|k: int| 0 <= k < es.len() ==> expr_names_ok(#[trigger] es[k]),
    decreases t.len() - p, 24int,
{
    if 0 <= p <= t.len() {
        lemma_p_expr(t, p);
        if let Ok((e, q)) = s_expr(t, p) {
            let acc2 = acc.push(e);
            assert forall|k: int| 0 <= k < acc2.len() implies expr_names_ok(#[trigger] acc2[k]) by {
                if k < acc.len() {
                    assert(acc2[k] == acc[k]);
                }
            }
            if p + 1 <= q <= t.len() && q < t.len() && t[q] == TokenV::Comma {
                lemma_p_args_loop(t, q + 1, acc2);
            }
        }
    }
}

proof fn lemma_p_block(t: Seq<TokenV>, p: int)
    requires
        tokens_plain(t),
    ensures
        s_block(t, p) matches Ok((e, _)) ==> expr_names_ok(e),
    decreases t.len() - p, 25int,
{
    if 0 <= p <= t.len() {
        lemma_p_block_loop(t, p, seq![]);
    }
}

proof fn lemma_p_block_loop(t: Seq<TokenV>, p: int, stmts: Seq<StmtV>)
    requires
        tokens_plain(t),
        forall|k: int| 0 <= k < stmts.len() ==> stmt_names_ok(#[trigger] stmts[k]),
    ensures
        s_block_loop(t, p, stmts) matches Ok((e, _)) ==> expr_names_ok(e),
    decreases t.len() - p, 24int,
{
    if p < 0 || p > t.len() {
    } else if 0 <= p < t.len() && t[p] == TokenV::Let {
        lemma_p_let(t, p);
        if let Ok((st, q)) = s_let(t, p) {
            if p + 1 <= q <= t.len() {
                let s2 = stmts.push(st);
                assert forall|k: int| 0 <= k < s2.len() implies stmt_names_ok(#[trigger] s2[k]) by {
                    if k < stmts.len() {
                        assert(s2[k] == stmts[k]);
                    }
                }
                lemma_p_block_loop(t, q, s2);
            }
        }
    } else {
        lemma_p_expr(t, p);
        if let Ok((e, q)) = s_expr(t, p) {
            let s2 = stmts.push(StmtV::Expr(e));
            assert forall|k: int| 0 <= k < s2.len() implies stmt_names_ok(#[trigger] s2[k]) by {
                if k < stmts.len() {
                    assert(s2[k] == stmts[k]);
                }
            }
            if p + 1 <= q <= t.len() && q < t.len() && t[q] == TokenV::Semicolon {
                lemma_p_block_loop(t, q + 1, s2);
            } else {
                lemma_stmts_all(stmts);
            }
        }
    }
}

proof fn lemma_p_let(t: Seq<TokenV>, p: int)
    requires
        tokens_plain(t),
    ensures
        s_let(t, p) matches Ok((st, _)) ==> stmt_names_ok(st),
    decreases t.len() - p, 23int,
{
    if 0 <= p && p + 1 < t.len() && t[p] == TokenV::Let {
        assert(t[p + 1] matches TokenV::Ident(n) ==> plain(n));
        if p + 4 <= t.len() {
            let p2 = p + 3;
            if let Ok((ty, p3)) = crate::compiler::parser::s_type(t, p2) {
                assert(p3 == p2 + 1);
                if p3 + 1 <= t.len() {
                    lemma_p_expr(t, p3 + 1);
                }
            }
        }
    }
}

proof fn lemma_p_params_loop(t: Seq<TokenV>, p: int, acc: Seq<ParamV>)
    requires
        tokens_plain(t),
        forall|k: int| 0 <= k < acc.len() ==> plain(#[trigger] acc[k].name),
    ensures
        s_params_loop(t, p, acc) matches Ok((ps, _)) ==> forall|k: int| 0 <= k < ps.len() ==> plain(#[trigger] ps[k].name),
    decreases t.len() - p,
{
    if 0 <= p < t.len() {
        assert(t[p] matches TokenV::Ident(n) ==> plain(n));
        if let TokenV::Ident(name) = t[p] {
            if p + 2 <= t.len() {
                if let Ok((ty, p3)) = crate::compiler::parser::s_type(t, p + 2) {
                    let acc2 = acc.push(ParamV { name, ty });
                    assert forall|k: int| 0 <= k < acc2.len() implies plain(#[trigger] acc2[k].name) by {
                        if k < acc.len() {
                            assert(acc2[k] == acc[k]);
                        }
                    }
                    assert(p3 == p + 3);
                    if p3 < t.len() && t[p3] == TokenV::Comma {
                        lemma_p_params_loop(t, p3 + 1, acc2);
                    }
                }
            }
        }
    }
}

proof fn lemma_p_function(t: Seq<TokenV>, p: int)
    requires
        tokens_plain(t),
    ensures
        s_function(t, p) matches Ok((f, _)) ==> function_names_ok(f),
{
    if 0 <= p && p + 1 < t.len() {
        assert(t[p + 1] matches TokenV::Ident(n) ==> plain(n));
    }
    let p2 = p + 3;
    if !(0 <= p2 <= t.len() && t[p2] == TokenV::RParen) {
        lemma_p_params_loop(t, p2, seq![]);
    }
    if let Ok((params, p3)) = s_params(t, p2) {
        let p7 = p3 + 4;
        lemma_p_block(t, p7);
    }
}

proof fn lemma_p_program(t: Seq<TokenV>, p: int)
    requires
        tokens_plain(t),
    ensures
        s_program(t, p) matches Ok(fs) ==> forall|k: int| 0 <= k < fs.len() ==> function_names_ok(#[trigger] fs[k]),
    decreases t.len() - p,
{
    if 0 <= p < t.len() {
        lemma_p_function(t, p);
        if let Ok((f, q)) = s_function(t, p) {
            if p + 1 <= q <= t.len() {
                lemma_p_program(t, q);
                if let Ok(rest) = s_program(t, q) {
                    let all = seq![f] + rest;
                    assert forall|k: int| 0 <= k < all.len() implies function_names_ok(#[trigger] all[k]) by {
                        if k > 0 {
                            assert(all[k] == rest[k - 1]);
                        }
                    }
                }
            }
        }
    }
}

/// Every name of a program parsed from source text is plain: the lexer reads
/// identifiers as runs of letters, digits and underscores, and the parser
/// takes every name from an identifier token.
pub proof fn lemma_parsed_names_plain(src: Seq<char>)
    ensures
        spec_lex(src) matches Ok(t) ==> (spec_parse(t) matches Ok(p) ==> program_names_ok(p)),
{
    lemma_lex_plain(src);
    if let Ok(t) = spec_lex(src) {
        lemma_p_program(t, 0);
    }
}

/// The machine reads back what the compiler writes for source text: when a
/// text lexes, parses and lowers, the text of the lowered module parses to
/// the machine module with the same functions, blocks, instructions and
/// terminators.
pub proof fn law_compiled_source_reads_back(src: Seq<char>)
    requires
        spec_lex(src) is Ok,
        spec_parse(spec_lex(src)->Ok_0) is Ok,
        spec_lower(spec_parse(spec_lex(src)->Ok_0)->Ok_0) is Ok,
    ensures
        ({
            let m = spec_lower(spec_parse(spec_lex(src)->Ok_0)->Ok_0)->Ok_0;
            spec_parse_module(cir::module_text(m)) == Ok::<vir::ModuleV, IrErr>(tr_module(m))
        }),
{
    lemma_parsed_names_plain(src);
    law_lowered_program_reads_back(spec_parse(spec_lex(src)->Ok_0)->Ok_0);
}

} // verus!
