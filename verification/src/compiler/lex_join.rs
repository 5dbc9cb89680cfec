//! Lexing two texts joined by a space: the tokens of the first, then those
//! of the second.
use vstd::prelude::*;
use crate::text::{spec_is_whitespace, spec_is_digit, spec_is_ident_start, spec_is_ident_char};
use crate::compiler::lexer::{
    TokenV, LexError, lex_from, spec_lex, punct_at, cons_token, ident_end, digits_end, comment_end,
    char_at_is, lemma_ident_end, lemma_digits_end, lemma_comment_end,
};

verus! {

/// Every `//` comment of `s` ends at a newline inside `s`.
pub open spec fn comments_closed(s: Seq<char>) -> bool {
    forall|i: int|
        #![trigger s[i]]
        0 <= i && i + 1 < s.len() && s[i] == '/' && s[i + 1] == '/' ==> exists|k: int|
            i + 1 < k < s.len() && #[trigger] s[k] == '\n'
}

/// The tokens of two lexings one after the other, or the first error.
pub open spec fn join_tokens(
    a: Result<Seq<TokenV>, LexError>,
    b: Result<Seq<TokenV>, LexError>,
) -> Result<Seq<TokenV>, LexError> {
    match a {
        Err(e) => Err(e),
        Ok(x) => match b {
            Err(e) => Err(e),
            Ok(y) => Ok(x + y),
        },
    }
}

proof fn lemma_join_cons(x: TokenV, a: Result<Seq<TokenV>, LexError>, b: Result<Seq<TokenV>, LexError>)
    ensures
        cons_token(x, join_tokens(a, b)) == join_tokens(cons_token(x, a), b),
{
    if let Ok(p) = a {
        if let Ok(q) = b {
            assert(seq![x] + (p + q) =~= (seq![x] + p) + q);
        }
    }
}

// ---------------------------------------------------------------------------
// Lexing after a prefix.
// ---------------------------------------------------------------------------

proof fn lemma_digits_end_shift(p: Seq<char>, t: Seq<char>, j: int)
    requires
        0 <= j <= t.len(),
    ensures
        digits_end(p + t, p.len() + j) == p.len() + digits_end(t, j),
    decreases t.len() - j,
{
    if j < t.len() {
        assert((p + t)[p.len() + j] == t[j]);
        lemma_digits_end_shift(p, t, j + 1);
    }
}

proof fn lemma_ident_end_shift(p: Seq<char>, t: Seq<char>, j: int)
    requires
        0 <= j <= t.len(),
    ensures
        ident_end(p + t, p.len() + j) == p.len() + ident_end(t, j),
    decreases t.len() - j,
{
    if j < t.len() {
        assert((p + t)[p.len() + j] == t[j]);
        lemma_ident_end_shift(p, t, j + 1);
    }
}

proof fn lemma_comment_end_shift(p: Seq<char>, t: Seq<char>, j: int)
    requires
        0 <= j <= t.len(),
    ensures
        comment_end(p + t, p.len() + j) == p.len() + comment_end(t, j),
    decreases t.len() - j,
{
    if j < t.len() {
        assert((p + t)[p.len() + j] == t[j]);
        lemma_comment_end_shift(p, t, j + 1);
    }
}

proof fn lemma_punct_shift(p: Seq<char>, t: Seq<char>, j: int)
    requires
        0 <= j < t.len(),
    ensures
        match punct_at(t, j) {
            Ok((x, k)) => punct_at(p + t, p.len() + j) == Ok::<(TokenV, int), LexError>((x, p.len() + k)),
            Err(e) => punct_at(p + t, p.len() + j) == Err::<(TokenV, int), LexError>(e),
        },
{
    let u = p + t;
    assert(u[p.len() + j] == t[j]);
    if j + 1 < t.len() {
        assert(u[p.len() + j + 1] == t[j + 1]);
    }
    assert(forall|c: char| #[trigger] char_at_is(u, p.len() + j + 1, c) == char_at_is(t, j + 1, c));
}

/// Lexing from a position past a prefix reads only what follows it.
proof fn lemma_lex_shift(p: Seq<char>, t: Seq<char>, j: int)
    requires
        0 <= j <= t.len(),
    ensures
        lex_from(p + t, p.len() + j) == lex_from(t, j),
    decreases t.len() - j,
{
    let u = p + t;
    let i = p.len() + j;
    if j < t.len() {
        assert(u[i] == t[j]);
        let c = t[j];
        if spec_is_whitespace(c) {
            lemma_lex_shift(p, t, j + 1);
        } else if c == '/' {
            assert(char_at_is(u, i + 1, '/') == char_at_is(t, j + 1, '/')) by {
                if j + 1 < t.len() {
                    assert(u[i + 1] == t[j + 1]);
                }
            }
            if char_at_is(t, j + 1, '/') {
                lemma_comment_end(t, j + 1);
                lemma_comment_end_shift(p, t, j + 1);
                lemma_lex_shift(p, t, comment_end(t, j + 1));
            } else {
                lemma_lex_shift(p, t, j + 1);
            }
        } else if spec_is_digit(c) {
            lemma_digits_end(t, j);
            lemma_digits_end_shift(p, t, j);
            let e = digits_end(t, j);
            assert(u.subrange(i, p.len() + e) =~= t.subrange(j, e));
            lemma_lex_shift(p, t, e);
        } else if spec_is_ident_start(c) {
            lemma_ident_end(t, j);
            lemma_ident_end_shift(p, t, j);
            let e = ident_end(t, j);
            assert(u.subrange(i, p.len() + e) =~= t.subrange(j, e));
            lemma_lex_shift(p, t, e);
        } else {
            lemma_punct_shift(p, t, j);
            match punct_at(t, j) {
                Ok((x, k)) => {
                    lemma_lex_shift(p, t, k);
                },
                Err(_) => {},
            }
        }
    }
}

// ---------------------------------------------------------------------------
// Lexing before the joining space.
// ---------------------------------------------------------------------------

pub open spec fn joined(s: Seq<char>, t: Seq<char>) -> Seq<char> {
    s + seq![' '] + t
}

proof fn lemma_joined_at(s: Seq<char>, t: Seq<char>, i: int)
    requires
        0 <= i <= s.len(),
    ensures
        i < s.len() ==> joined(s, t)[i] == s[i],
        i == s.len() ==> joined(s, t)[i] == ' ',
        joined(s, t).len() == s.len() + 1 + t.len(),
{
}

proof fn lemma_digits_end_frame(s: Seq<char>, t: Seq<char>, i: int)
    requires
        0 <= i <= s.len(),
    ensures
        digits_end(joined(s, t), i) == digits_end(s, i),
    decreases s.len() - i,
{
    lemma_joined_at(s, t, i);
    if i < s.len() {
        lemma_digits_end_frame(s, t, i + 1);
    }
}

proof fn lemma_ident_end_frame(s: Seq<char>, t: Seq<char>, i: int)
    requires
        0 <= i <= s.len(),
    ensures
        ident_end(joined(s, t), i) == ident_end(s, i),
    decreases s.len() - i,
{
    lemma_joined_at(s, t, i);
    if i < s.len() {
        lemma_ident_end_frame(s, t, i + 1);
    }
}

proof fn lemma_comment_end_frame(s: Seq<char>, t: Seq<char>, i: int, k: int)
    requires
        0 <= i <= k < s.len(),
        s[k] == '\n',
    ensures
        comment_end(joined(s, t), i) == comment_end(s, i),
    decreases k - i,
{
    lemma_joined_at(s, t, i);
    if s[i] != '\n' {
        lemma_comment_end_frame(s, t, i + 1, k);
    }
}

proof fn lemma_punct_frame(s: Seq<char>, t: Seq<char>, i: int)
    requires
        0 <= i < s.len(),
    ensures
        punct_at(joined(s, t), i) == punct_at(s, i),
        punct_at(s, i) matches Ok((_, k)) ==> i < k <= s.len(),
{
    let u = joined(s, t);
    lemma_joined_at(s, t, i);
    lemma_joined_at(s, t, i + 1);
    assert(forall|c: char| c != ' ' ==> #[trigger] char_at_is(u, i + 1, c) == char_at_is(s, i + 1, c));
}

/// Lexing the joined text from a position in `s` gives the tokens of `s`
/// from there, then those of `t`.
proof fn lemma_lex_join_from(s: Seq<char>, t: Seq<char>, i: int)
    requires
        comments_closed(s),
        0 <= i <= s.len(),
    ensures
        lex_from(joined(s, t), i) == join_tokens(lex_from(s, i), lex_from(t, 0)),
    decreases s.len() - i,
{
    let u = joined(s, t);
    lemma_joined_at(s, t, i);
    if i == s.len() {
        let p = s + seq![' '];
        assert(u =~= p + t);
        lemma_lex_shift(p, t, 0);
        if let Ok(y) = lex_from(t, 0) {
            assert(Seq::<TokenV>::empty() + y =~= y);
        }
    } else {
        let c = s[i];
        if spec_is_whitespace(c) {
            lemma_lex_join_from(s, t, i + 1);
        } else if c == '/' {
            lemma_joined_at(s, t, i + 1);
            assert(char_at_is(u, i + 1, '/') == char_at_is(s, i + 1, '/'));
            if char_at_is(s, i + 1, '/') {
                assert(s[i] == '/');
                let k = choose|k: int| i + 1 < k < s.len() && #[trigger] s[k] == '\n';
                lemma_comment_end_frame(s, t, i + 1, k);
                lemma_comment_end(s, i + 1);
                lemma_lex_join_from(s, t, comment_end(s, i + 1));
            } else {
                lemma_lex_join_from(s, t, i + 1);
                lemma_join_cons(TokenV::Slash, lex_from(s, i + 1), lex_from(t, 0));
            }
        } else if spec_is_digit(c) {
            lemma_digits_end(s, i);
            lemma_digits_end_frame(s, t, i);
            let e = digits_end(s, i);
            assert(u.subrange(i, e) =~= s.subrange(i, e));
            lemma_lex_join_from(s, t, e);
            let v = crate::compiler::lexer::digits_value(s.subrange(i, e));
            if v <= i32::MAX {
                lemma_join_cons(TokenV::Int(v as i32), lex_from(s, e), lex_from(t, 0));
            }
        } else if spec_is_ident_start(c) {
            lemma_ident_end(s, i);
            lemma_ident_end_frame(s, t, i);
            let e = ident_end(s, i);
            assert(u.subrange(i, e) =~= s.subrange(i, e));
            lemma_lex_join_from(s, t, e);
            lemma_join_cons(crate::compiler::lexer::word_token(s.subrange(i, e)), lex_from(s, e), lex_from(t, 0));
        } else {
            lemma_punct_frame(s, t, i);
            match punct_at(s, i) {
                Ok((x, k)) => {
                    lemma_lex_join_from(s, t, k);
                    lemma_join_cons(x, lex_from(s, k), lex_from(t, 0));
                },
                Err(_) => {},
            }
        }
    }
}

/// A space separates tokens without adding any: the tokens of `s`, a space
/// and `t` are those of `s` followed by those of `t` (or the first error),
/// when every `//` comment of `s` ends inside `s`.
pub proof fn law_lex_joined_by_space(s: Seq<char>, t: Seq<char>)
    requires
        comments_closed(s),
    ensures
        spec_lex(s + seq![' '] + t) == join_tokens(spec_lex(s), spec_lex(t)),
{
    lemma_lex_join_from(s, t, 0);
}

} // verus!
