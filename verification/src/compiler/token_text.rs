//! Each token has a text, and the lexer reads that text back as the token:
//! keywords, operators and delimiters by their spelling, identifiers as
//! themselves.
use vstd::prelude::*;
use crate::text::{spec_is_ident_start, spec_is_ident_char, spec_is_digit, nat_decimal};
use crate::compiler::lexer::{TokenV, LexError, spec_lex, lex_from, ident_end, word_token, lemma_ident_end, digits_end, digits_value, lemma_digits_end};

verus! {

/// How a keyword, operator or delimiter token is spelled.
pub open spec fn token_text(t: TokenV) -> Option<Seq<char>> {
    match t {
        TokenV::Fn => Some("fn"@),
        TokenV::Let => Some("let"@),
        TokenV::If => Some("if"@),
        TokenV::While => Some("while"@),
        TokenV::Else => Some("else"@),
        TokenV::True => Some("true"@),
        TokenV::False => Some("false"@),
        TokenV::I32 => Some("i32"@),
        TokenV::Bool => Some("bool"@),
        TokenV::LParen => Some("("@),
        TokenV::RParen => Some(")"@),
        TokenV::LBrace => Some("{"@),
        TokenV::RBrace => Some("}"@),
        TokenV::Colon => Some(":"@),
        TokenV::Comma => Some(","@),
        TokenV::Semicolon => Some(";"@),
        TokenV::Arrow => Some("->"@),
        TokenV::Plus => Some("+"@),
        TokenV::Minus => Some("-"@),
        TokenV::Star => Some("*"@),
        TokenV::Slash => Some("/"@),
        TokenV::Percent => Some("%"@),
        TokenV::Eq => Some("="@),
        TokenV::EqEq => Some("=="@),
        TokenV::NotEq => Some("!="@),
        TokenV::Lt => Some("<"@),
        TokenV::Le => Some("<="@),
        TokenV::Gt => Some(">"@),
        TokenV::Ge => Some(">="@),
        TokenV::AndAnd => Some("&&"@),
        TokenV::OrOr => Some("||"@),
        TokenV::Bang => Some("!"@),
        _ => None,
    }
}

/// The spelling of every keyword, operator and delimiter lexes as exactly
/// that one token.
pub proof fn law_token_text_lexes_back(t: TokenV)
    requires
        token_text(t) is Some,
    ensures
        spec_lex(token_text(t)->Some_0) == Ok::<Seq<TokenV>, LexError>(seq![t]),
{
    reveal_strlit("fn");
    reveal_strlit("let");
    reveal_strlit("if");
    reveal_strlit("while");
    reveal_strlit("else");
    reveal_strlit("true");
    reveal_strlit("false");
    reveal_strlit("i32");
    reveal_strlit("bool");
    reveal_strlit("(");
    reveal_strlit(")");
    reveal_strlit("{");
    reveal_strlit("}");
    reveal_strlit(":");
    reveal_strlit(",");
    reveal_strlit(";");
    reveal_strlit("->");
    reveal_strlit("+");
    reveal_strlit("-");
    reveal_strlit("*");
    reveal_strlit("/");
    reveal_strlit("%");
    reveal_strlit("=");
    reveal_strlit("==");
    reveal_strlit("!=");
    reveal_strlit("<");
    reveal_strlit("<=");
    reveal_strlit(">");
    reveal_strlit(">=");
    reveal_strlit("&&");
    reveal_strlit("||");
    reveal_strlit("!");
    let s = token_text(t)->Some_0;
    match t {
        TokenV::Fn => {
            assert(seq!['f', 'n'] =~= "fn"@);
            lemma_word_token(s, t);
        },
        TokenV::Let => {
            assert(seq!['l', 'e', 't'] =~= "let"@);
            lemma_word_token(s, t);
        },
        TokenV::If => {
            assert(seq!['i', 'f'] =~= "if"@);
            lemma_word_token(s, t);
        },
        TokenV::While => {
            assert(seq!['w', 'h', 'i', 'l', 'e'] =~= "while"@);
            lemma_word_token(s, t);
        },
        TokenV::Else => {
            assert(seq!['e', 'l', 's', 'e'] =~= "else"@);
            lemma_word_token(s, t);
        },
        TokenV::True => {
            assert(seq!['t', 'r', 'u', 'e'] =~= "true"@);
            lemma_word_token(s, t);
        },
        TokenV::False => {
            assert(seq!['f', 'a', 'l', 's', 'e'] =~= "false"@);
            lemma_word_token(s, t);
        },
        TokenV::I32 => {
            assert(seq!['i', '3', '2'] =~= "i32"@);
            lemma_word_token(s, t);
        },
        TokenV::Bool => {
            assert(seq!['b', 'o', 'o', 'l'] =~= "bool"@);
            lemma_word_token(s, t);
        },
        TokenV::LParen => {
            lemma_punct_token(s, t);
        },
        TokenV::RParen => {
            lemma_punct_token(s, t);
        },
        TokenV::LBrace => {
            lemma_punct_token(s, t);
        },
        TokenV::RBrace => {
            lemma_punct_token(s, t);
        },
        TokenV::Colon => {
            lemma_punct_token(s, t);
        },
        TokenV::Comma => {
            lemma_punct_token(s, t);
        },
        TokenV::Semicolon => {
            lemma_punct_token(s, t);
        },
        TokenV::Arrow => {
            lemma_punct_token(s, t);
        },
        TokenV::Plus => {
            lemma_punct_token(s, t);
        },
        TokenV::Minus => {
            lemma_punct_token(s, t);
        },
        TokenV::Star => {
            lemma_punct_token(s, t);
        },
        TokenV::Slash => {
            lemma_punct_token(s, t);
        },
        TokenV::Percent => {
            lemma_punct_token(s, t);
        },
        TokenV::Eq => {
            lemma_punct_token(s, t);
        },
        TokenV::EqEq => {
            lemma_punct_token(s, t);
        },
        TokenV::NotEq => {
            lemma_punct_token(s, t);
        },
        TokenV::Lt => {
            lemma_punct_token(s, t);
        },
        TokenV::Le => {
            lemma_punct_token(s, t);
        },
        TokenV::Gt => {
            lemma_punct_token(s, t);
        },
        TokenV::Ge => {
            lemma_punct_token(s, t);
        },
        TokenV::AndAnd => {
            lemma_punct_token(s, t);
        },
        TokenV::OrOr => {
            lemma_punct_token(s, t);
        },
        TokenV::Bang => {
            lemma_punct_token(s, t);
        },
        _ => {},
    }
}

/// A keyword's spelling lexes as the keyword.
proof fn lemma_word_token(s: Seq<char>, t: TokenV)
    requires
        s.len() > 0,
        spec_is_ident_start(s[0]),
        forall|i: int| 0 <= i < s.len() ==> spec_is_ident_char(#[trigger] s[i]),
        word_token(s) == t,
    ensures
        spec_lex(s) == Ok::<Seq<TokenV>, LexError>(seq![t]),
{
    lemma_word(s);
    assert(s.subrange(0, s.len() as int) =~= s);
}

/// An operator's or delimiter's spelling lexes as that token.
proof fn lemma_punct_token(s: Seq<char>, t: TokenV)
    requires
        1 <= s.len() <= 2,
        !crate::text::spec_is_whitespace(s[0]),
        !crate::text::spec_is_digit(s[0]),
        !spec_is_ident_start(s[0]),
        s[0] == '/' ==> s.len() == 1 && t == TokenV::Slash,
        s[0] != '/' ==> crate::compiler::lexer::punct_at(s, 0) == Ok::<(TokenV, int), LexError>((t, s.len() as int)),
    ensures
        spec_lex(s) == Ok::<Seq<TokenV>, LexError>(seq![t]),
{
    assert(lex_from(s, s.len() as int) == Ok::<Seq<TokenV>, LexError>(seq![]));
}

/// A run of identifier characters that starts a text and fills it is read
/// in one piece.
proof fn lemma_word(s: Seq<char>)
    requires
        s.len() > 0,
        forall|i: int| 0 <= i < s.len() ==> spec_is_ident_char(#[trigger] s[i]),
    ensures
        ident_end(s, 0) == s.len(),
        lex_from(s, s.len() as int) == Ok::<Seq<TokenV>, LexError>(seq![]),
{
    lemma_ident_end(s, 0);
}

/// An identifier that is not a keyword lexes as itself.
pub proof fn law_identifier_lexes_back(s: Seq<char>)
    requires
        s.len() > 0,
        spec_is_ident_start(s[0]),
        forall|i: int| 0 <= i < s.len() ==> spec_is_ident_char(#[trigger] s[i]),
        forall|t: TokenV| token_text(t) != Some(s),
    ensures
        spec_lex(s) == Ok::<Seq<TokenV>, LexError>(seq![TokenV::Ident(s)]),
{
    lemma_word(s);
    assert(s.subrange(0, s.len() as int) =~= s);
    assert(token_text(TokenV::Fn) != Some(s));
    assert(token_text(TokenV::Let) != Some(s));
    assert(token_text(TokenV::If) != Some(s));
    assert(token_text(TokenV::While) != Some(s));
    assert(token_text(TokenV::Else) != Some(s));
    assert(token_text(TokenV::True) != Some(s));
    assert(token_text(TokenV::False) != Some(s));
    assert(token_text(TokenV::I32) != Some(s));
    assert(token_text(TokenV::Bool) != Some(s));
    assert(word_token(s) == TokenV::Ident(s)) by {
        reveal_strlit("fn");
        reveal_strlit("let");
        reveal_strlit("if");
        reveal_strlit("while");
        reveal_strlit("else");
        reveal_strlit("true");
        reveal_strlit("false");
        reveal_strlit("i32");
        reveal_strlit("bool");
        assert(s != "fn"@ && s != "let"@ && s != "if"@ && s != "while"@ && s != "else"@);
        assert(s != "true"@ && s != "false"@ && s != "i32"@ && s != "bool"@);
        assert(seq!['f', 'n'] =~= "fn"@);
        assert(seq!['l', 'e', 't'] =~= "let"@);
        assert(seq!['i', 'f'] =~= "if"@);
        assert(seq!['w', 'h', 'i', 'l', 'e'] =~= "while"@);
        assert(seq!['e', 'l', 's', 'e'] =~= "else"@);
        assert(seq!['t', 'r', 'u', 'e'] =~= "true"@);
        assert(seq!['f', 'a', 'l', 's', 'e'] =~= "false"@);
        assert(seq!['i', '3', '2'] =~= "i32"@);
        assert(seq!['b', 'o', 'o', 'l'] =~= "bool"@);
    }
}

proof fn lemma_same_digits_value(ds: Seq<char>)
    ensures
        digits_value(ds) == crate::vm::chars::digits_value(ds),
    decreases ds.len(),
{
    if ds.len() > 0 {
        lemma_same_digits_value(ds.drop_last());
    }
}

/// A number written in decimal lexes as that integer when it fits in an
/// `i32`, and is refused as too large otherwise.
pub proof fn law_decimal_lexes_back(n: nat)
    ensures
        n <= i32::MAX ==> spec_lex(nat_decimal(n)) == Ok::<Seq<TokenV>, LexError>(seq![TokenV::Int(n as i32)]),
        n > i32::MAX ==> spec_lex(nat_decimal(n)) == Err::<Seq<TokenV>, LexError>(LexError::BadInt),
{
    let s = nat_decimal(n);
    crate::readback::lowering::lemma_nat_decimal(n);
    lemma_same_digits_value(s);
    lemma_digits_end(s, 0);
    if digits_end(s, 0) < s.len() {
        assert(spec_is_digit(s[digits_end(s, 0)]));
    }
    assert(s.subrange(0, s.len() as int) =~= s);
    assert(lex_from(s, s.len() as int) == Ok::<Seq<TokenV>, LexError>(seq![]));
    assert(spec_is_digit(s[0]));
}

} // verus!
