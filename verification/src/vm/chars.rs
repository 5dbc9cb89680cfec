//! Operations on character sequences that the IR reader uses: trimming,
//! searching, splitting, and reading integers.
use vstd::prelude::*;
use crate::text::{spec_is_whitespace, spec_is_digit, is_whitespace, is_digit};

verus! {

/// Drops leading whitespace.
pub open spec fn trim_start(s: Seq<char>) -> Seq<char>
    decreases s.len(),
{
    if s.len() > 0 && spec_is_whitespace(s[0]) { trim_start(s.drop_first()) } else { s }
}

/// Drops trailing whitespace.
pub open spec fn trim_end(s: Seq<char>) -> Seq<char>
    decreases s.len(),
{
    if s.len() > 0 && spec_is_whitespace(s.last()) { trim_end(s.drop_last()) } else { s }
}

/// Drops leading and trailing whitespace.
pub open spec fn trim(s: Seq<char>) -> Seq<char> {
    trim_end(trim_start(s))
}

/// The index of the first `c`.
pub open spec fn find(s: Seq<char>, c: char) -> Option<int>
    decreases s.len(),
{
    if s.len() == 0 {
        None
    } else if s[0] == c {
        Some(0)
    } else {
        match find(s.drop_first(), c) {
            Some(i) => Some(i + 1),
            None => None,
        }
    }
}

/// The index of the last `c`.
pub open spec fn rfind(s: Seq<char>, c: char) -> Option<int>
    decreases s.len(),
{
    if s.len() == 0 {
        None
    } else if s.last() == c {
        Some(s.len() - 1)
    } else {
        rfind(s.drop_last(), c)
    }
}

pub open spec fn starts_with(s: Seq<char>, p: Seq<char>) -> bool {
    p.len() <= s.len() && s.take(p.len() as int) == p
}

pub open spec fn strip_prefix(s: Seq<char>, p: Seq<char>) -> Option<Seq<char>> {
    if starts_with(s, p) { Some(s.skip(p.len() as int)) } else { None }
}

/// Drops every leading `c`.
pub open spec fn trim_start_matches(s: Seq<char>, c: char) -> Seq<char>
    decreases s.len(),
{
    if s.len() > 0 && s[0] == c { trim_start_matches(s.drop_first(), c) } else { s }
}

/// Drops every trailing `c`.
pub open spec fn trim_end_matches(s: Seq<char>, c: char) -> Seq<char>
    decreases s.len(),
{
    if s.len() > 0 && s.last() == c { trim_end_matches(s.drop_last(), c) } else { s }
}

/// The text before and after the first `c`.
pub open spec fn split_once(s: Seq<char>, c: char) -> Option<(Seq<char>, Seq<char>)> {
    match find(s, c) {
        Some(i) => Some((s.take(i), s.skip(i + 1))),
        None => None,
    }
}

/// The first piece of `s` split at `c` (the whole of `s` without a `c`).
pub open spec fn first_piece(s: Seq<char>, c: char) -> Seq<char> {
    match find(s, c) {
        Some(i) => s.take(i),
        None => s,
    }
}

/// The second piece of `s` split at `c`, if `s` holds a `c`.
pub open spec fn second_piece(s: Seq<char>, c: char) -> Option<Seq<char>> {
    match split_once(s, c) {
        Some((_, rest)) => Some(first_piece(rest, c)),
        None => None,
    }
}

/// All pieces of `s` split at `c`, in order.
pub open spec fn split(s: Seq<char>, c: char) -> Seq<Seq<char>>
    decreases s.len(),
{
    match find(s, c) {
        Some(i) => if 0 <= i < s.len() { seq![s.take(i)] + split(s.skip(i + 1), c) } else { seq![s] },
        None => seq![s],
    }
}

/// The length of the run of non-whitespace characters at the start of `s`.
pub open spec fn word_len(s: Seq<char>) -> int
    decreases s.len(),
{
    if s.len() == 0 || spec_is_whitespace(s[0]) { 0 } else { 1 + word_len(s.drop_first()) }
}

/// The first whitespace-separated word of `s`.
pub open spec fn first_word(s: Seq<char>) -> Option<Seq<char>> {
    let t = trim_start(s);
    if t.len() == 0 { None } else { Some(t.take(word_len(t))) }
}

/// The second whitespace-separated word of `s`.
pub open spec fn second_word(s: Seq<char>) -> Option<Seq<char>> {
    let t = trim_start(s);
    if t.len() == 0 { None } else { first_word(t.skip(word_len(t))) }
}

/// The lines of a text: split at `\n`, a `\r` before the `\n` dropped, and
/// no empty last line after a final `\n`.
pub open spec fn lines(s: Seq<char>) -> Seq<Seq<char>>
    decreases s.len(),
{
    if s.len() == 0 {
        seq![]
    } else {
        match find(s, '\n') {
            None => seq![s],
            Some(i) => {
                let l = s.take(i);
                let l2 = if l.len() > 0 && l.last() == '\r' { l.drop_last() } else { l };
                if 0 <= i < s.len() { seq![l2] + lines(s.skip(i + 1)) } else { seq![l2] }
            },
        }
    }
}

/// The number that a run of ASCII digits denotes.
pub open spec fn digits_value(ds: Seq<char>) -> int
    decreases ds.len(),
{
    if ds.len() == 0 {
        0
    } else {
        digits_value(ds.drop_last()) * 10 + (ds.last() as int - '0' as int)
    }
}

pub open spec fn all_digits(ds: Seq<char>) -> bool {
    forall|i: int| 0 <= i < ds.len() ==> spec_is_digit(#[trigger] ds[i])
}

/// A decimal `i64`: an optional sign, then one or more ASCII digits, with a
/// value in range.
pub open spec fn parse_i64(s: Seq<char>) -> Option<i64> {
    let (neg, ds) = if s.len() > 0 && s[0] == '-' {
        (true, s.drop_first())
    } else if s.len() > 0 && s[0] == '+' {
        (false, s.drop_first())
    } else {
        (false, s)
    };
    if ds.len() == 0 || !all_digits(ds) {
        None
    } else {
        let v = if neg { -digits_value(ds) } else { digits_value(ds) };
        if i64::MIN <= v <= i64::MAX { Some(v as i64) } else { None }
    }
}

pub proof fn lemma_trim_start(s: Seq<char>, i: int)
    requires
        0 <= i <= s.len(),
        forall|k: int| 0 <= k < i ==> spec_is_whitespace(#[trigger] s[k]),
        i == s.len() || !spec_is_whitespace(s[i]),
    ensures
        trim_start(s) == s.skip(i),
    decreases i,
{
    if i > 0 {
        lemma_trim_start(s.drop_first(), i - 1);
        assert(s.drop_first().skip(i - 1) =~= s.skip(i));
    } else {
        assert(s.skip(0) =~= s);
    }
}

pub proof fn lemma_trim_end(s: Seq<char>, j: int)
    requires
        0 <= j <= s.len(),
        forall|k: int| j <= k < s.len() ==> spec_is_whitespace(#[trigger] s[k]),
        j == 0 || !spec_is_whitespace(s[j - 1]),
    ensures
        trim_end(s) == s.take(j),
    decreases s.len() - j,
{
    if j < s.len() {
        lemma_trim_end(s.drop_last(), j);
        assert(s.drop_last().take(j) =~= s.take(j));
    } else {
        assert(s.take(j) =~= s);
    }
}

pub proof fn lemma_find(s: Seq<char>, c: char, i: int)
    requires
        0 <= i <= s.len(),
        forall|k: int| 0 <= k < i ==> #[trigger] s[k] != c,
        i == s.len() || s[i] == c,
    ensures
        find(s, c) == if i < s.len() { Some(i) } else { None::<int> },
    decreases i,
{
    if i > 0 {
        lemma_find(s.drop_first(), c, i - 1);
    }
}

pub proof fn lemma_rfind(s: Seq<char>, c: char, j: int)
    requires
        0 <= j <= s.len(),
        forall|k: int| j <= k < s.len() ==> #[trigger] s[k] != c,
        j == 0 || s[j - 1] == c,
    ensures
        rfind(s, c) == if j > 0 { Some(j - 1) } else { None::<int> },
    decreases s.len() - j,
{
    if j < s.len() {
        lemma_rfind(s.drop_last(), c, j);
    }
}

pub proof fn lemma_find_bounds(s: Seq<char>, c: char)
    ensures
        find(s, c) matches Some(i) ==> 0 <= i < s.len() && s[i] == c && forall|k: int| 0 <= k < i ==> #[trigger] s[k] != c,
        find(s, c) is None ==> forall|k: int| 0 <= k < s.len() ==> #[trigger] s[k] != c,
    decreases s.len(),
{
    if s.len() > 0 && s[0] != c {
        lemma_find_bounds(s.drop_first(), c);
        assert forall|k: int| 1 <= k < s.len() implies s[k] == s.drop_first()[k - 1] by {}
    }
}

pub proof fn lemma_rfind_bounds(s: Seq<char>, c: char)
    ensures
        rfind(s, c) matches Some(i) ==> 0 <= i < s.len() && s[i] == c && forall|k: int| i < k < s.len() ==> #[trigger] s[k] != c,
        rfind(s, c) is None ==> forall|k: int| 0 <= k < s.len() ==> #[trigger] s[k] != c,
    decreases s.len(),
{
    if s.len() > 0 && s.last() != c {
        lemma_rfind_bounds(s.drop_last(), c);
        assert forall|k: int| 0 <= k < s.len() - 1 implies s[k] == s.drop_last()[k] by {}
    }
}

pub proof fn lemma_trim_start_matches(s: Seq<char>, c: char, i: int)
    requires
        0 <= i <= s.len(),
        forall|k: int| 0 <= k < i ==> #[trigger] s[k] == c,
        i == s.len() || s[i] != c,
    ensures
        trim_start_matches(s, c) == s.skip(i),
    decreases i,
{
    if i > 0 {
        lemma_trim_start_matches(s.drop_first(), c, i - 1);
        assert(s.drop_first().skip(i - 1) =~= s.skip(i));
    } else {
        assert(s.skip(0) =~= s);
    }
}

pub proof fn lemma_trim_end_matches(s: Seq<char>, c: char, j: int)
    requires
        0 <= j <= s.len(),
        forall|k: int| j <= k < s.len() ==> #[trigger] s[k] == c,
        j == 0 || s[j - 1] != c,
    ensures
        trim_end_matches(s, c) == s.take(j),
    decreases s.len() - j,
{
    if j < s.len() {
        lemma_trim_end_matches(s.drop_last(), c, j);
        assert(s.drop_last().take(j) =~= s.take(j));
    } else {
        assert(s.take(j) =~= s);
    }
}

pub proof fn lemma_word_len(s: Seq<char>, i: int)
    requires
        0 <= i <= s.len(),
        forall|k: int| 0 <= k < i ==> !spec_is_whitespace(#[trigger] s[k]),
        i == s.len() || spec_is_whitespace(s[i]),
    ensures
        word_len(s) == i,
    decreases i,
{
    if i > 0 {
        lemma_word_len(s.drop_first(), i - 1);
    }
}

pub proof fn lemma_trim_start_len(s: Seq<char>)
    ensures
        trim_start(s).len() <= s.len(),
    decreases s.len(),
{
    if s.len() > 0 && spec_is_whitespace(s[0]) {
        lemma_trim_start_len(s.drop_first());
    }
}

pub proof fn lemma_word_len_bounds(s: Seq<char>)
    ensures
        0 <= word_len(s) <= s.len(),
    decreases s.len(),
{
    if s.len() > 0 && !spec_is_whitespace(s[0]) {
        lemma_word_len_bounds(s.drop_first());
    }
}

/// The first word of `s` is no longer than `s`.
pub proof fn lemma_first_word_len(s: Seq<char>)
    ensures
        first_word(s) matches Some(w) ==> w.len() <= s.len(),
{
    lemma_trim_start_len(s);
    lemma_word_len_bounds(trim_start(s));
}

/// A copy of `s[a..b]`.
pub fn sub_chars(s: &[char], a: usize, b: usize) -> (r: Vec<char>)
    requires
        a <= b <= s@.len(),
    ensures
        r@ == s@.subrange(a as int, b as int),
{
    let mut r: Vec<char> = Vec::new();
    let mut k: usize = a;
    while k < b
        invariant
            a <= k <= b,
            b <= s@.len(),
            r@ == s@.subrange(a as int, k as int),
        decreases b - k,
    {
        r.push(s[k]);
        k = k + 1;
        assert(r@ =~= s@.subrange(a as int, k as int));
    }
    r
}

/// `s` without leading and trailing whitespace.
pub fn trim_chars(s: &[char]) -> (r: Vec<char>)
    ensures
        r@ == trim(s@),
{
    let mut i: usize = 0;
    while i < s.len() && is_whitespace(s[i])
        invariant
            i <= s@.len(),
            forall|k: int| 0 <= k < i ==> spec_is_whitespace(#[trigger] s@[k]),
        decreases s@.len() - i,
    {
        i = i + 1;
    }
    proof {
        lemma_trim_start(s@, i as int);
    }
    let mut j: usize = s.len();
    while j > i && is_whitespace(s[j - 1])
        invariant
            i <= j <= s@.len(),
            forall|k: int| j <= k < s@.len() ==> spec_is_whitespace(#[trigger] s@[k]),
        decreases j,
    {
        j = j - 1;
    }
    proof {
        let t = s@.skip(i as int);
        assert forall|k: int| j - i <= k < t.len() implies spec_is_whitespace(#[trigger] t[k]) by {
            assert(t[k] == s@[k + i]);
        }
        if j > i {
            assert(t[j - i - 1] == s@[j - 1]);
        }
        lemma_trim_end(t, j - i);
        assert(t.take(j - i) =~= s@.subrange(i as int, j as int));
    }
    sub_chars(s, i, j)
}

/// The index of the first `c`.
pub fn find_char(s: &[char], c: char) -> (r: Option<usize>)
    ensures
        match r {
            Some(i) => find(s@, c) == Some(i as int) && i < s@.len(),
            None => find(s@, c) is None,
        },
{
    let mut i: usize = 0;
    while i < s.len() && s[i] != c
        invariant
            i <= s@.len(),
            forall|k: int| 0 <= k < i ==> #[trigger] s@[k] != c,
        decreases s@.len() - i,
    {
        i = i + 1;
    }
    proof {
        lemma_find(s@, c, i as int);
    }
    if i < s.len() { Some(i) } else { None }
}

/// The index of the last `c`.
pub fn rfind_char(s: &[char], c: char) -> (r: Option<usize>)
    ensures
        match r {
            Some(i) => rfind(s@, c) == Some(i as int) && i < s@.len(),
            None => rfind(s@, c) is None,
        },
{
    let mut j: usize = s.len();
    while j > 0 && s[j - 1] != c
        invariant
            j <= s@.len(),
            forall|k: int| j <= k < s@.len() ==> #[trigger] s@[k] != c,
        decreases j,
    {
        j = j - 1;
    }
    proof {
        lemma_rfind(s@, c, j as int);
    }
    if j > 0 { Some(j - 1) } else { None }
}

/// Whether `s` begins with `p`.
pub fn starts_with_chars(s: &[char], p: &[char]) -> (b: bool)
    ensures
        b == starts_with(s@, p@),
{
    if p.len() > s.len() {
        return false;
    }
    let mut k: usize = 0;
    while k < p.len()
        invariant
            k <= p@.len(),
            p@.len() <= s@.len(),
            forall|j: int| 0 <= j < k ==> #[trigger] s@[j] == p@[j],
        decreases p@.len() - k,
    {
        if s[k] != p[k] {
            assert(s@.take(p@.len() as int)[k as int] != p@[k as int]);
            return false;
        }
        k = k + 1;
    }
    assert(s@.take(p@.len() as int) =~= p@);
    true
}

/// Whether `s` begins with the characters of `lit`.
pub fn starts_with_str(s: &[char], lit: &str) -> (b: bool)
    ensures
        b == starts_with(s@, lit@),
{
    let p = crate::text::str_chars(lit);
    starts_with_chars(s, p.as_slice())
}

/// Whether `s` is exactly the characters of `lit`.
pub fn eq_str(s: &[char], lit: &str) -> (b: bool)
    ensures
        b == (s@ == lit@),
{
    let p = crate::text::str_chars(lit);
    if p.len() != s.len() {
        return false;
    }
    let r = starts_with_chars(s, p.as_slice());
    proof {
        assert(s@.take(p@.len() as int) =~= s@);
    }
    r
}

/// `s` without the prefix `lit`, if it has it.
pub fn strip_prefix_str(s: &[char], lit: &str) -> (r: Option<Vec<char>>)
    ensures
        match strip_prefix(s@, lit@) {
            Some(t) => r is Some && r->Some_0@ == t,
            None => r is None,
        },
{
    let p = crate::text::str_chars(lit);
    if starts_with_chars(s, p.as_slice()) {
        let t = sub_chars(s, p.len(), s.len());
        assert(t@ =~= s@.skip(p@.len() as int));
        Some(t)
    } else {
        None
    }
}

/// `s` without its leading `c`s.
pub fn trim_start_matches_char(s: &[char], c: char) -> (r: Vec<char>)
    ensures
        r@ == trim_start_matches(s@, c),
{
    let mut i: usize = 0;
    while i < s.len() && s[i] == c
        invariant
            i <= s@.len(),
            forall|k: int| 0 <= k < i ==> #[trigger] s@[k] == c,
        decreases s@.len() - i,
    {
        i = i + 1;
    }
    proof {
        lemma_trim_start_matches(s@, c, i as int);
    }
    let r = sub_chars(s, i, s.len());
    assert(r@ =~= s@.skip(i as int));
    r
}

/// `s` without its trailing `c`s.
pub fn trim_end_matches_char(s: &[char], c: char) -> (r: Vec<char>)
    ensures
        r@ == trim_end_matches(s@, c),
{
    let mut j: usize = s.len();
    while j > 0 && s[j - 1] == c
        invariant
            j <= s@.len(),
            forall|k: int| j <= k < s@.len() ==> #[trigger] s@[k] == c,
        decreases j,
    {
        j = j - 1;
    }
    proof {
        lemma_trim_end_matches(s@, c, j as int);
    }
    let r = sub_chars(s, 0, j);
    assert(r@ =~= s@.take(j as int));
    r
}

/// The text before and after the first `c`.
pub fn split_once_char(s: &[char], c: char) -> (r: Option<(Vec<char>, Vec<char>)>)
    ensures
        match split_once(s@, c) {
            Some((a, b)) => r is Some && r->Some_0.0@ == a && r->Some_0.1@ == b,
            None => r is None,
        },
{
    match find_char(s, c) {
        Some(i) => {
            let n = s.len();
            let a = sub_chars(s, 0, i);
            let b = sub_chars(s, i + 1, n);
            assert(a@ =~= s@.take(i as int));
            assert(b@ =~= s@.skip(i + 1));
            Some((a, b))
        },
        None => None,
    }
}

/// The first piece of `s` split at `c`.
pub fn first_piece_chars(s: &[char], c: char) -> (r: Vec<char>)
    ensures
        r@ == first_piece(s@, c),
{
    match find_char(s, c) {
        Some(i) => {
            let a = sub_chars(s, 0, i);
            assert(a@ =~= s@.take(i as int));
            a
        },
        None => {
            let a = sub_chars(s, 0, s.len());
            assert(a@ =~= s@);
            a
        },
    }
}

/// All pieces of `s` split at `c`.
pub fn split_chars(s: &[char], c: char) -> (r: Vec<Vec<char>>)
    ensures
        r@.map_values(|v: Vec<char>| v@) == split(s@, c),
{
    let mut out: Vec<Vec<char>> = Vec::new();
    let mut start: usize = 0;
    let ghost whole = split(s@, c);
    proof {
        assert(s@.skip(0) =~= s@);
    }
    loop
        invariant
            start <= s@.len(),
            whole == split(s@, c),
            whole == out@.map_values(|v: Vec<char>| v@) + split(s@.skip(start as int), c),
        decreases s@.len() - start,
    {
        let rest = sub_chars(s, start, s.len());
        assert(rest@ =~= s@.skip(start as int));
        let ghost before = out@.map_values(|v: Vec<char>| v@);
        match find_char(rest.as_slice(), c) {
            Some(i) => {
                let piece = sub_chars(rest.as_slice(), 0, i);
                assert(piece@ =~= rest@.take(i as int));
                assert(rest@.skip(i + 1) =~= s@.skip(start + i + 1));
                out.push(piece);
                assert(out@.map_values(|v: Vec<char>| v@) =~= before.push(piece@));
                assert(before + (seq![piece@] + split(s@.skip(start + i + 1), c)) =~= before.push(piece@) + split(s@.skip(start + i + 1), c));
                start = start + i + 1;
            },
            None => {
                out.push(rest);
                assert(out@.map_values(|v: Vec<char>| v@) =~= before.push(s@.skip(start as int)));
                assert(before + seq![s@.skip(start as int)] =~= before.push(s@.skip(start as int)));
                return out;
            },
        }
    }
}

/// The first whitespace-separated word of `s`.
pub fn first_word_chars(s: &[char]) -> (r: Option<Vec<char>>)
    ensures
        match first_word(s@) {
            Some(w) => r is Some && r->Some_0@ == w,
            None => r is None,
        },
{
    let mut i: usize = 0;
    while i < s.len() && is_whitespace(s[i])
        invariant
            i <= s@.len(),
            forall|k: int| 0 <= k < i ==> spec_is_whitespace(#[trigger] s@[k]),
        decreases s@.len() - i,
    {
        i = i + 1;
    }
    proof {
        lemma_trim_start(s@, i as int);
    }
    if i == s.len() {
        return None;
    }
    let mut j: usize = i;
    while j < s.len() && !is_whitespace(s[j])
        invariant
            i <= j <= s@.len(),
            forall|k: int| i <= k < j ==> !spec_is_whitespace(#[trigger] s@[k]),
        decreases s@.len() - j,
    {
        j = j + 1;
    }
    proof {
        let t = s@.skip(i as int);
        assert forall|k: int| 0 <= k < j - i implies !spec_is_whitespace(#[trigger] t[k]) by {
            assert(t[k] == s@[k + i]);
        }
        if j < s@.len() {
            assert(t[j - i] == s@[j as int]);
        }
        lemma_word_len(t, j - i);
        assert(t.take(j - i) =~= s@.subrange(i as int, j as int));
    }
    Some(sub_chars(s, i, j))
}

/// The second whitespace-separated word of `s`.
pub fn second_word_chars(s: &[char]) -> (r: Option<Vec<char>>)
    ensures
        match second_word(s@) {
            Some(w) => r is Some && r->Some_0@ == w,
            None => r is None,
        },
{
    let mut i: usize = 0;
    while i < s.len() && is_whitespace(s[i])
        invariant
            i <= s@.len(),
            forall|k: int| 0 <= k < i ==> spec_is_whitespace(#[trigger] s@[k]),
        decreases s@.len() - i,
    {
        i = i + 1;
    }
    proof {
        lemma_trim_start(s@, i as int);
    }
    if i == s.len() {
        return None;
    }
    let mut j: usize = i;
    while j < s.len() && !is_whitespace(s[j])
        invariant
            i <= j <= s@.len(),
            forall|k: int| i <= k < j ==> !spec_is_whitespace(#[trigger] s@[k]),
        decreases s@.len() - j,
    {
        j = j + 1;
    }
    proof {
        let t = s@.skip(i as int);
        assert forall|k: int| 0 <= k < j - i implies !spec_is_whitespace(#[trigger] t[k]) by {
            assert(t[k] == s@[k + i]);
        }
        if j < s@.len() {
            assert(t[j - i] == s@[j as int]);
        }
        lemma_word_len(t, j - i);
        assert(t.skip(j - i) =~= s@.skip(j as int));
    }
    let rest = sub_chars(s, j, s.len());
    assert(rest@ =~= s@.skip(j as int));
    first_word_chars(rest.as_slice())
}

/// The lines of a text; see `lines`.
pub fn lines_chars(s: &[char]) -> (r: Vec<Vec<char>>)
    ensures
        r@.map_values(|v: Vec<char>| v@) == lines(s@),
{
    let mut out: Vec<Vec<char>> = Vec::new();
    let mut start: usize = 0;
    let ghost whole = lines(s@);
    proof {
        assert(s@.skip(0) =~= s@);
    }
    while start < s.len()
        invariant
            start <= s@.len(),
            whole == lines(s@),
            whole == out@.map_values(|v: Vec<char>| v@) + lines(s@.skip(start as int)),
        decreases s@.len() - start,
    {
        let rest = sub_chars(s, start, s.len());
        assert(rest@ =~= s@.skip(start as int));
        let ghost before = out@.map_values(|v: Vec<char>| v@);
        match find_char(rest.as_slice(), '\n') {
            Some(i) => {
                let mut line = sub_chars(rest.as_slice(), 0, i);
                assert(line@ =~= rest@.take(i as int));
                let ghost l = line@;
                if line.len() > 0 && line[line.len() - 1] == '\r' {
                    line.pop();
                    assert(line@ =~= l.drop_last());
                }
                assert(rest@.skip(i + 1) =~= s@.skip(start + i + 1));
                out.push(line);
                assert(out@.map_values(|v: Vec<char>| v@) =~= before.push(line@));
                assert(before + (seq![line@] + lines(s@.skip(start + i + 1))) =~= before.push(line@) + lines(s@.skip(start + i + 1)));
                start = start + i + 1;
            },
            None => {
                out.push(rest);
                assert(out@.map_values(|v: Vec<char>| v@) =~= before.push(s@.skip(start as int)));
                assert(before + seq![s@.skip(start as int)] =~= before.push(s@.skip(start as int)));
                assert(s@.skip(s@.len() as int) =~= seq![]);
                return out;
            },
        }
    }
    proof {
        assert(s@.skip(start as int) =~= seq![]);
        assert(out@.map_values(|v: Vec<char>| v@) + Seq::<Seq<char>>::empty() =~= out@.map_values(|v: Vec<char>| v@));
    }
    out
}

pub proof fn lemma_digits_value_bounds(ds: Seq<char>)
    requires
        all_digits(ds),
    ensures
        digits_value(ds) >= 0,
    decreases ds.len(),
{
    if ds.len() > 0 {
        assert(all_digits(ds.drop_last())) by {
            assert forall|i: int| 0 <= i < ds.drop_last().len() implies spec_is_digit(#[trigger] ds.drop_last()[i]) by {
                assert(ds.drop_last()[i] == ds[i]);
            }
        }
        lemma_digits_value_bounds(ds.drop_last());
    }
}

/// Reads a decimal `i64`; see `parse_i64`.
pub fn parse_i64_chars(s: &[char]) -> (r: Option<i64>)
    ensures
        r == parse_i64(s@),
{
    let mut i: usize = 0;
    let mut neg = false;
    if s.len() > 0 && s[0] == '-' {
        neg = true;
        i = 1;
    } else if s.len() > 0 && s[0] == '+' {
        i = 1;
    }
    let ghost ds = s@.skip(i as int);
    let ghost spec_neg = s@.len() > 0 && s@[0] == '-';
    let ghost signed = s@.len() > 0 && (s@[0] == '-' || s@[0] == '+');
    assert(neg == spec_neg);
    assert(i == if signed { 1usize } else { 0usize });
    if i == s.len() {
        return None;
    }
    // Magnitude accumulated as a non-negative i128, saturating once it
    // exceeds every i64 magnitude.
    let mut acc: i128 = 0;
    let mut big = false;
    let mut k: usize = i;
    while k < s.len()
        invariant
            i <= k <= s@.len(),
            neg == spec_neg,
            spec_neg == (s@.len() > 0 && s@[0] == '-'),
            signed == (s@.len() > 0 && (s@[0] == '-' || s@[0] == '+')),
            i == if signed { 1usize } else { 0usize },
            ds == s@.skip(i as int),
            all_digits(s@.subrange(i as int, k as int)),
            big == (digits_value(s@.subrange(i as int, k as int)) > 9223372036854775808),
            !big ==> acc == digits_value(s@.subrange(i as int, k as int)),
        decreases s@.len() - k,
    {
        if !is_digit(s[k]) {
            proof {
                assert(ds[k - i] == s@[k as int]);
                assert(!all_digits(ds));
            }
            return None;
        }
        let ghost prev = s@.subrange(i as int, k as int);
        let ghost next = s@.subrange(i as int, k + 1);
        assert(next.drop_last() =~= prev);
        assert(all_digits(next)) by {
            assert forall|j: int| 0 <= j < next.len() implies spec_is_digit(#[trigger] next[j]) by {
                if j < prev.len() {
                    assert(next[j] == prev[j]);
                }
            }
        }
        proof {
            lemma_digits_value_bounds(prev);
        }
        let d = (s[k] as u32 - '0' as u32) as i128;
        if !big {
            acc = acc * 10 + d;
            if acc > 9223372036854775808 {
                big = true;
            }
        }
        k = k + 1;
    }
    assert(s@.subrange(i as int, k as int) =~= ds);
    proof {
        lemma_digits_value_bounds(ds);
        assert(ds.len() > 0);
        if signed {
            assert(ds =~= s@.drop_first());
        } else {
            assert(ds =~= s@);
        }
    }
    if big {
        return None;
    }
    if neg {
        Some((-acc) as i64)
    } else if acc > i64::MAX as i128 {
        None
    } else {
        Some(acc as i64)
    }
}

} // verus!
