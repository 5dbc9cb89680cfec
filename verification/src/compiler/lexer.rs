//! Splits source text into tokens.
use vstd::prelude::*;
use crate::text::{spec_is_whitespace, spec_is_digit, spec_is_ident_start, spec_is_ident_char, is_whitespace, is_digit, is_ident_start, is_ident_char, string_push, str_chars};

verus! {

/// A token of the source language.
#[derive(Debug, Clone, PartialEq)]
pub enum Token {
    Fn,
    Let,
    If,
    While,
    Else,
    True,
    False,
    I32,
    Bool,
    Ident(String),
    Int(i32),
    LParen,
    RParen,
    LBrace,
    RBrace,
    Colon,
    Comma,
    Semicolon,
    Arrow,
    Plus,
    Minus,
    Star,
    Slash,
    Percent,
    Eq,
    EqEq,
    NotEq,
    Lt,
    Le,
    Gt,
    Ge,
    AndAnd,
    OrOr,
    Bang,
}

/// A token with its identifier text as a sequence of characters.
pub enum TokenV {
    Fn,
    Let,
    If,
    While,
    Else,
    True,
    False,
    I32,
    Bool,
    Ident(Seq<char>),
    Int(i32),
    LParen,
    RParen,
    LBrace,
    RBrace,
    Colon,
    Comma,
    Semicolon,
    Arrow,
    Plus,
    Minus,
    Star,
    Slash,
    Percent,
    Eq,
    EqEq,
    NotEq,
    Lt,
    Le,
    Gt,
    Ge,
    AndAnd,
    OrOr,
    Bang,
}

impl View for Token {
    type V = TokenV;

    open spec fn view(&self) -> TokenV {
        match self {
            Token::Fn => TokenV::Fn,
            Token::Let => TokenV::Let,
            Token::If => TokenV::If,
            Token::While => TokenV::While,
            Token::Else => TokenV::Else,
            Token::True => TokenV::True,
            Token::False => TokenV::False,
            Token::I32 => TokenV::I32,
            Token::Bool => TokenV::Bool,
            Token::Ident(s) => TokenV::Ident(s@),
            Token::Int(v) => TokenV::Int(*v),
            Token::LParen => TokenV::LParen,
            Token::RParen => TokenV::RParen,
            Token::LBrace => TokenV::LBrace,
            Token::RBrace => TokenV::RBrace,
            Token::Colon => TokenV::Colon,
            Token::Comma => TokenV::Comma,
            Token::Semicolon => TokenV::Semicolon,
            Token::Arrow => TokenV::Arrow,
            Token::Plus => TokenV::Plus,
            Token::Minus => TokenV::Minus,
            Token::Star => TokenV::Star,
            Token::Slash => TokenV::Slash,
            Token::Percent => TokenV::Percent,
            Token::Eq => TokenV::Eq,
            Token::EqEq => TokenV::EqEq,
            Token::NotEq => TokenV::NotEq,
            Token::Lt => TokenV::Lt,
            Token::Le => TokenV::Le,
            Token::Gt => TokenV::Gt,
            Token::Ge => TokenV::Ge,
            Token::AndAnd => TokenV::AndAnd,
            Token::OrOr => TokenV::OrOr,
            Token::Bang => TokenV::Bang,
        }
    }
}

/// Why lexing failed.
#[derive(Debug, Clone, Copy, PartialEq, Eq)]
pub enum LexError {
    /// A run of digits whose value does not fit in `i32`.
    BadInt,
    /// A `&` not followed by a second `&`.
    UnexpectedAmp,
    /// A `|` not followed by a second `|`.
    UnexpectedPipe,
    /// A character that starts no token.
    UnexpectedChar(char),
}

pub open spec fn tokens_view(ts: Seq<Token>) -> Seq<TokenV> {
    ts.map_values(|t: Token| t@)
}

pub open spec fn lex_result_view(r: Result<Vec<Token>, LexError>) -> Result<Seq<TokenV>, LexError> {
    match r {
        Ok(v) => Ok(tokens_view(v@)),
        Err(e) => Err(e),
    }
}

/// Index just past the first newline at or after `i` (or the end of `s`).
pub open spec fn comment_end(s: Seq<char>, i: int) -> int
    decreases s.len() - i,
{
    if i >= s.len() {
        s.len() as int
    } else if s[i] == '\n' {
        i + 1
    } else {
        comment_end(s, i + 1)
    }
}

/// End of the run of ASCII digits that starts at `i`.
pub open spec fn digits_end(s: Seq<char>, i: int) -> int
    decreases s.len() - i,
{
    if i >= s.len() || !spec_is_digit(s[i]) {
        i
    } else {
        digits_end(s, i + 1)
    }
}

/// End of the run of identifier characters that starts at `i`.
pub open spec fn ident_end(s: Seq<char>, i: int) -> int
    decreases s.len() - i,
{
    if i >= s.len() || !spec_is_ident_char(s[i]) {
        i
    } else {
        ident_end(s, i + 1)
    }
}

/// The number that a sequence of ASCII digits denotes.
pub open spec fn digits_value(ds: Seq<char>) -> int
    decreases ds.len(),
{
    if ds.len() == 0 {
        0
    } else {
        digits_value(ds.drop_last()) * 10 + (ds.last() as int - '0' as int)
    }
}

/// The token that a word of identifier characters denotes: a keyword or an
/// identifier.
pub open spec fn word_token(w: Seq<char>) -> TokenV {
    if w == seq!['f', 'n'] {
        TokenV::Fn
    } else if w == seq!['l', 'e', 't'] {
        TokenV::Let
    } else if w == seq!['i', 'f'] {
        TokenV::If
    } else if w == seq!['w', 'h', 'i', 'l', 'e'] {
        TokenV::While
    } else if w == seq!['e', 'l', 's', 'e'] {
        TokenV::Else
    } else if w == seq!['t', 'r', 'u', 'e'] {
        TokenV::True
    } else if w == seq!['f', 'a', 'l', 's', 'e'] {
        TokenV::False
    } else if w == seq!['i', '3', '2'] {
        TokenV::I32
    } else if w == seq!['b', 'o', 'o', 'l'] {
        TokenV::Bool
    } else {
        TokenV::Ident(w)
    }
}

/// Whether the character at `i` exists and equals `c`.
pub open spec fn char_at_is(s: Seq<char>, i: int, c: char) -> bool {
    0 <= i < s.len() && s[i] == c
}

/// The operator or delimiter token that starts at `i`, with the index just past it.
pub open spec fn punct_at(s: Seq<char>, i: int) -> Result<(TokenV, int), LexError> {
    let c = s[i];
    if c == '(' {
        Ok((TokenV::LParen, i + 1))
    } else if c == ')' {
        Ok((TokenV::RParen, i + 1))
    } else if c == '{' {
        Ok((TokenV::LBrace, i + 1))
    } else if c == '}' {
        Ok((TokenV::RBrace, i + 1))
    } else if c == ':' {
        Ok((TokenV::Colon, i + 1))
    } else if c == ',' {
        Ok((TokenV::Comma, i + 1))
    } else if c == ';' {
        Ok((TokenV::Semicolon, i + 1))
    } else if c == '+' {
        Ok((TokenV::Plus, i + 1))
    } else if c == '*' {
        Ok((TokenV::Star, i + 1))
    } else if c == '%' {
        Ok((TokenV::Percent, i + 1))
    } else if c == '-' {
        if char_at_is(s, i + 1, '>') { Ok((TokenV::Arrow, i + 2)) } else { Ok((TokenV::Minus, i + 1)) }
    } else if c == '=' {
        if char_at_is(s, i + 1, '=') { Ok((TokenV::EqEq, i + 2)) } else { Ok((TokenV::Eq, i + 1)) }
    } else if c == '!' {
        if char_at_is(s, i + 1, '=') { Ok((TokenV::NotEq, i + 2)) } else { Ok((TokenV::Bang, i + 1)) }
    } else if c == '<' {
        if char_at_is(s, i + 1, '=') { Ok((TokenV::Le, i + 2)) } else { Ok((TokenV::Lt, i + 1)) }
    } else if c == '>' {
        if char_at_is(s, i + 1, '=') { Ok((TokenV::Ge, i + 2)) } else { Ok((TokenV::Gt, i + 1)) }
    } else if c == '&' {
        if char_at_is(s, i + 1, '&') { Ok((TokenV::AndAnd, i + 2)) } else { Err(LexError::UnexpectedAmp) }
    } else if c == '|' {
        if char_at_is(s, i + 1, '|') { Ok((TokenV::OrOr, i + 2)) } else { Err(LexError::UnexpectedPipe) }
    } else {
        Err(LexError::UnexpectedChar(c))
    }
}

/// Puts `t` in front of the tokens of a successful result.
pub open spec fn cons_token(t: TokenV, r: Result<Seq<TokenV>, LexError>) -> Result<Seq<TokenV>, LexError> {
    match r {
        Ok(ts) => Ok(seq![t] + ts),
        Err(e) => Err(e),
    }
}

/// Puts `p` in front of the tokens of a successful result.
pub open spec fn prefix_tokens(p: Seq<TokenV>, r: Result<Seq<TokenV>, LexError>) -> Result<Seq<TokenV>, LexError> {
    match r {
        Ok(ts) => Ok(p + ts),
        Err(e) => Err(e),
    }
}

/// The tokens of `s` from index `i` on: whitespace is skipped, `//` starts a
/// comment that runs to the end of the line, a run of digits is an integer,
/// a run of identifier characters is a keyword or an identifier, and the
/// rest are operators and delimiters, the longest match first.
pub open spec fn lex_from(s: Seq<char>, i: int) -> Result<Seq<TokenV>, LexError>
    decreases s.len() - i,
{
    if i < 0 || i >= s.len() {
        Ok(seq![])
    } else {
        let c = s[i];
        if spec_is_whitespace(c) {
            lex_from(s, i + 1)
        } else if c == '/' {
            if char_at_is(s, i + 1, '/') {
                proof {
                    lemma_comment_end(s, i + 1);
                }
                lex_from(s, comment_end(s, i + 1))
            } else {
                cons_token(TokenV::Slash, lex_from(s, i + 1))
            }
        } else if spec_is_digit(c) {
            let j = digits_end(s, i);
            proof {
                lemma_digits_end(s, i);
            }
            let v = digits_value(s.subrange(i, j));
            if v > i32::MAX {
                Err(LexError::BadInt)
            } else {
                cons_token(TokenV::Int(v as i32), lex_from(s, j))
            }
        } else if spec_is_ident_start(c) {
            let j = ident_end(s, i);
            proof {
                lemma_ident_end(s, i);
            }
            cons_token(word_token(s.subrange(i, j)), lex_from(s, j))
        } else {
            match punct_at(s, i) {
                Ok((t, j)) => cons_token(t, lex_from(s, j)),
                Err(e) => Err(e),
            }
        }
    }
}

/// The tokens of a whole source text.
pub open spec fn spec_lex(s: Seq<char>) -> Result<Seq<TokenV>, LexError> {
    lex_from(s, 0)
}

pub proof fn lemma_comment_end(s: Seq<char>, i: int)
    requires
        0 <= i <= s.len(),
    ensures
        i <= comment_end(s, i) <= s.len(),
        comment_end(s, i) > i || i == s.len(),
    decreases s.len() - i,
{
    if i < s.len() && s[i] != '\n' {
        lemma_comment_end(s, i + 1);
    }
}

pub proof fn lemma_digits_end(s: Seq<char>, i: int)
    requires
        0 <= i <= s.len(),
    ensures
        i <= digits_end(s, i) <= s.len(),
        forall|k: int| i <= k < digits_end(s, i) ==> spec_is_digit(#[trigger] s[k]),
        digits_end(s, i) < s.len() ==> !spec_is_digit(s[digits_end(s, i)]),
        i < s.len() && spec_is_digit(s[i]) ==> digits_end(s, i) > i,
    decreases s.len() - i,
{
    if i < s.len() && spec_is_digit(s[i]) {
        lemma_digits_end(s, i + 1);
    }
}

pub proof fn lemma_ident_end(s: Seq<char>, i: int)
    requires
        0 <= i <= s.len(),
    ensures
        i <= ident_end(s, i) <= s.len(),
        forall|k: int| i <= k < ident_end(s, i) ==> spec_is_ident_char(#[trigger] s[k]),
        ident_end(s, i) < s.len() ==> !spec_is_ident_char(s[ident_end(s, i)]),
        i < s.len() && spec_is_ident_char(s[i]) ==> ident_end(s, i) > i,
    decreases s.len() - i,
{
    if i < s.len() && spec_is_ident_char(s[i]) {
        lemma_ident_end(s, i + 1);
    }
}

pub proof fn lemma_digits_value_nonneg(ds: Seq<char>)
    requires
        forall|k: int| 0 <= k < ds.len() ==> spec_is_digit(#[trigger] ds[k]),
    ensures
        digits_value(ds) >= 0,
    decreases ds.len(),
{
    if ds.len() > 0 {
        lemma_digits_value_nonneg(ds.drop_last());
    }
}

pub proof fn lemma_prefix_tokens_assoc(p: Seq<TokenV>, q: Seq<TokenV>, r: Result<Seq<TokenV>, LexError>)
    ensures
        prefix_tokens(p, prefix_tokens(q, r)) == prefix_tokens(p + q, r),
{
    if let Ok(ts) = r {
        assert(p + (q + ts) =~= (p + q) + ts);
    }
}

/// Scans the digits at `i` and returns the end of the run, the value of the
/// run (when it fits in `i32`), and whether it does not fit.
fn scan_int(s: &Vec<char>, i: usize) -> (res: (usize, i32, bool))
    requires
        i < s@.len(),
        spec_is_digit(s@[i as int]),
    ensures
        res.0 == digits_end(s@, i as int),
        res.2 == (digits_value(s@.subrange(i as int, res.0 as int)) > i32::MAX),
        !res.2 ==> res.1 == digits_value(s@.subrange(i as int, res.0 as int)),
{
    proof {
        lemma_digits_end(s@, i as int);
    }
    let ghost end = digits_end(s@, i as int);
    let mut j: usize = i;
    let mut acc: i64 = 0;
    let mut big = false;
    while j < s.len() && is_digit(s[j])
        invariant
            i <= j <= end,
            end == digits_end(s@, i as int),
            i <= end <= s@.len(),
            forall|k: int| i <= k < end ==> spec_is_digit(#[trigger] s@[k]),
            end < s@.len() ==> !spec_is_digit(s@[end]),
            big == (digits_value(s@.subrange(i as int, j as int)) > i32::MAX),
            !big ==> acc == digits_value(s@.subrange(i as int, j as int)),
            !big ==> 0 <= acc,
        decreases s@.len() - j,
    {
        let ghost prev = s@.subrange(i as int, j as int);
        let ghost next_sub = s@.subrange(i as int, j + 1);
        assert(next_sub.drop_last() =~= prev);
        assert(next_sub.last() == s@[j as int]);
        proof {
            lemma_digits_value_nonneg(prev);
        }
        let d = (s[j] as u32 - '0' as u32) as i64;
        if !big {
            acc = acc * 10 + d;
            if acc > i32::MAX as i64 {
                big = true;
            }
        }
        j = j + 1;
    }
    if big {
        (j, 0, true)
    } else {
        (j, acc as i32, false)
    }
}

/// Scans the identifier characters at `i`; returns the end of the run and
/// the run itself.
fn scan_word(s: &Vec<char>, i: usize) -> (res: (usize, String))
    requires
        i < s@.len(),
    ensures
        res.0 == ident_end(s@, i as int),
        res.1@ == s@.subrange(i as int, res.0 as int),
{
    proof {
        lemma_ident_end(s@, i as int);
    }
    let ghost end = ident_end(s@, i as int);
    let mut j: usize = i;
    let mut w = String::new();
    while j < s.len() && is_ident_char(s[j])
        invariant
            i <= j <= end,
            end == ident_end(s@, i as int),
            i <= end <= s@.len(),
            forall|k: int| i <= k < end ==> spec_is_ident_char(#[trigger] s@[k]),
            end < s@.len() ==> !spec_is_ident_char(s@[end]),
            w@ == s@.subrange(i as int, j as int),
        decreases s@.len() - j,
    {
        string_push(&mut w, s[j]);
        j = j + 1;
        assert(w@ =~= s@.subrange(i as int, j as int));
    }
    (j, w)
}

/// The keyword or identifier token for a word.
fn word_to_token(w: String) -> (t: Token)
    ensures
        t@ == word_token(w@),
{
    proof {
        reveal_strlit("fn");
        reveal_strlit("let");
        reveal_strlit("if");
        reveal_strlit("while");
        reveal_strlit("else");
        reveal_strlit("true");
        reveal_strlit("false");
        reveal_strlit("i32");
        reveal_strlit("bool");
    }
    if w == String::from_str("fn") {
        assert(w@ =~= seq!['f', 'n']);
        Token::Fn
    } else if w == String::from_str("let") {
        assert(w@ =~= seq!['l', 'e', 't']);
        Token::Let
    } else if w == String::from_str("if") {
        assert(w@ =~= seq!['i', 'f']);
        Token::If
    } else if w == String::from_str("while") {
        assert(w@ =~= seq!['w', 'h', 'i', 'l', 'e']);
        Token::While
    } else if w == String::from_str("else") {
        assert(w@ =~= seq!['e', 'l', 's', 'e']);
        Token::Else
    } else if w == String::from_str("true") {
        assert(w@ =~= seq!['t', 'r', 'u', 'e']);
        Token::True
    } else if w == String::from_str("false") {
        assert(w@ =~= seq!['f', 'a', 'l', 's', 'e']);
        Token::False
    } else if w == String::from_str("i32") {
        assert(w@ =~= seq!['i', '3', '2']);
        Token::I32
    } else if w == String::from_str("bool") {
        assert(w@ =~= seq!['b', 'o', 'o', 'l']);
        Token::Bool
    } else {
        assert("fn"@ =~= seq!['f', 'n']);
        assert("let"@ =~= seq!['l', 'e', 't']);
        assert("if"@ =~= seq!['i', 'f']);
        assert("while"@ =~= seq!['w', 'h', 'i', 'l', 'e']);
        assert("else"@ =~= seq!['e', 'l', 's', 'e']);
        assert("true"@ =~= seq!['t', 'r', 'u', 'e']);
        assert("false"@ =~= seq!['f', 'a', 'l', 's', 'e']);
        assert("i32"@ =~= seq!['i', '3', '2']);
        assert("bool"@ =~= seq!['b', 'o', 'o', 'l']);
        assert(w@ != seq!['f', 'n']);
        assert(w@ != seq!['l', 'e', 't']);
        assert(w@ != seq!['i', 'f']);
        assert(w@ != seq!['w', 'h', 'i', 'l', 'e']);
        assert(w@ != seq!['e', 'l', 's', 'e']);
        assert(w@ != seq!['t', 'r', 'u', 'e']);
        assert(w@ != seq!['f', 'a', 'l', 's', 'e']);
        assert(w@ != seq!['i', '3', '2']);
        assert(w@ != seq!['b', 'o', 'o', 'l']);
        Token::Ident(w)
    }
}

/// Whether index `i` holds the character `c`.
fn char_at(s: &Vec<char>, i: usize, c: char) -> (b: bool)
    ensures
        b == char_at_is(s@, i as int, c),
{
    i < s.len() && s[i] == c
}

/// The operator or delimiter at `i`.
fn lex_punct(s: &Vec<char>, i: usize) -> (res: Result<(Token, usize), LexError>)
    requires
        i < s@.len(),
    ensures
        match punct_at(s@, i as int) {
            Ok((t, j)) => res is Ok && res->Ok_0.0@ == t && res->Ok_0.1 == j,
            Err(e) => res == Err::<(Token, usize), LexError>(e),
        },
{
    let n = s.len();
    let c = s[i];
    if c == '(' {
        Ok((Token::LParen, i + 1))
    } else if c == ')' {
        Ok((Token::RParen, i + 1))
    } else if c == '{' {
        Ok((Token::LBrace, i + 1))
    } else if c == '}' {
        Ok((Token::RBrace, i + 1))
    } else if c == ':' {
        Ok((Token::Colon, i + 1))
    } else if c == ',' {
        Ok((Token::Comma, i + 1))
    } else if c == ';' {
        Ok((Token::Semicolon, i + 1))
    } else if c == '+' {
        Ok((Token::Plus, i + 1))
    } else if c == '*' {
        Ok((Token::Star, i + 1))
    } else if c == '%' {
        Ok((Token::Percent, i + 1))
    } else if c == '-' {
        if char_at(s, i + 1, '>') { Ok((Token::Arrow, i + 2)) } else { Ok((Token::Minus, i + 1)) }
    } else if c == '=' {
        if char_at(s, i + 1, '=') { Ok((Token::EqEq, i + 2)) } else { Ok((Token::Eq, i + 1)) }
    } else if c == '!' {
        if char_at(s, i + 1, '=') { Ok((Token::NotEq, i + 2)) } else { Ok((Token::Bang, i + 1)) }
    } else if c == '<' {
        if char_at(s, i + 1, '=') { Ok((Token::Le, i + 2)) } else { Ok((Token::Lt, i + 1)) }
    } else if c == '>' {
        if char_at(s, i + 1, '=') { Ok((Token::Ge, i + 2)) } else { Ok((Token::Gt, i + 1)) }
    } else if c == '&' {
        if char_at(s, i + 1, '&') { Ok((Token::AndAnd, i + 2)) } else { Err(LexError::UnexpectedAmp) }
    } else if c == '|' {
        if char_at(s, i + 1, '|') { Ok((Token::OrOr, i + 2)) } else { Err(LexError::UnexpectedPipe) }
    } else {
        Err(LexError::UnexpectedChar(c))
    }
}

/// Splits `source` into tokens; see `spec_lex` for the rules.
pub fn lex(source: &str) -> (res: Result<Vec<Token>, LexError>)
    ensures
        lex_result_view(res) == spec_lex(source@),
{
    let s = str_chars(source);
    let ghost sv = s@;
    let mut tokens: Vec<Token> = Vec::new();
    let mut i: usize = 0;
    while i < s.len()
        invariant
            sv == s@,
            sv == source@,
            i <= sv.len(),
            spec_lex(sv) == prefix_tokens(tokens_view(tokens@), lex_from(sv, i as int)),
        decreases sv.len() - i,
    {
        let c = s[i];
        let ghost before = tokens_view(tokens@);
        if is_whitespace(c) {
            i = i + 1;
        } else if c == '/' {
            if char_at(&s, i + 1, '/') {
                proof {
                    lemma_comment_end(sv, i + 1);
                }
                let mut j = i + 1;
                while j < s.len() && s[j] != '\n'
                    invariant
                        i + 1 <= j <= sv.len(),
                        sv == s@,
                        comment_end(sv, i + 1) == comment_end(sv, j as int),
                    decreases sv.len() - j,
                {
                    j = j + 1;
                }
                if j < s.len() {
                    j = j + 1;
                }
                i = j;
            } else {
                tokens.push(Token::Slash);
                proof {
                    assert(tokens_view(tokens@) =~= before + seq![TokenV::Slash]);
                    lemma_prefix_tokens_assoc(before, seq![TokenV::Slash], lex_from(sv, i + 1));
                }
                i = i + 1;
            }
        } else if is_digit(c) {
            let (j, v, big) = scan_int(&s, i);
            if big {
                return Err(LexError::BadInt);
            }
            tokens.push(Token::Int(v));
            proof {
                lemma_digits_end(sv, i as int);
                assert(tokens_view(tokens@) =~= before + seq![TokenV::Int(v)]);
                lemma_prefix_tokens_assoc(before, seq![TokenV::Int(v)], lex_from(sv, j as int));
            }
            i = j;
        } else if is_ident_start(c) {
            let (j, w) = scan_word(&s, i);
            let t = word_to_token(w);
            let ghost tv = t@;
            tokens.push(t);
            proof {
                lemma_ident_end(sv, i as int);
                assert(tokens_view(tokens@) =~= before + seq![tv]);
                lemma_prefix_tokens_assoc(before, seq![tv], lex_from(sv, j as int));
            }
            i = j;
        } else {
            match lex_punct(&s, i) {
                Ok((t, j)) => {
                    let ghost tv = t@;
                    tokens.push(t);
                    proof {
                        assert(tokens_view(tokens@) =~= before + seq![tv]);
                        lemma_prefix_tokens_assoc(before, seq![tv], lex_from(sv, j as int));
                    }
                    i = j;
                },
                Err(e) => {
                    return Err(e);
                },
            }
        }
    }
    proof {
        assert(tokens_view(tokens@) + seq![] =~= tokens_view(tokens@));
    }
    Ok(tokens)
}

} // verus!
