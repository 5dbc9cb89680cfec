//! What the virtual machine's reader makes of the text that the compiler
//! writes: every line that the compiler emits for an instruction or a
//! terminator reads back as the corresponding machine instruction.
use vstd::prelude::*;

pub mod signature;
pub mod program;
pub mod lowering;
pub mod source;
pub mod meaning;

use crate::text::spec_is_whitespace;
use crate::vm::chars::{
    trim, trim_start, find, split_once, first_piece, trim_start_matches, starts_with, strip_prefix,
    first_word, second_word, parse_i64, split, second_piece, lemma_trim_start, lemma_trim_end,
    lemma_find, lemma_find_bounds, lemma_trim_start_matches, lemma_word_len, lemma_rfind, lines,
};
use crate::vm::ir::{OperandV, InstrV, TerminatorV};
use crate::vm::reader::{
    IrErr, BinKind, bin_instr, spec_parse_operand, spec_parse_two_operands, spec_strip_type_prefix,
    spec_strip_type_prefix_any, spec_parse_binop, spec_parse_instruction, spec_call_args,
    spec_parse_call, drop_prefix, spec_parse_icmp, spec_parse_predicate, spec_parse_load,
    strip_ptr_type, spec_phi_incomings, spec_parse_phi, spec_parse_store, spec_parse_ret,
    spec_parse_br, label_target,
};
use crate::compiler::ir::{binop_text, args_text, typed_arg_text, ty_text, incomings_text, incoming_text};
use crate::compiler::ast::Type;
use crate::compiler::ir as cir;

verus! {

/// A character that the IR text never uses as punctuation or spacing.
pub open spec fn plain_char(c: char) -> bool {
    &&& !spec_is_whitespace(c)
    &&& c != ';' && c != ',' && c != '=' && c != '[' && c != ']'
    &&& c != '(' && c != ')' && c != '@' && c != '%' && c != ':'
}

/// A non-empty run of plain characters: a name or a literal.
pub open spec fn plain(s: Seq<char>) -> bool {
    s.len() > 0 && forall|i: int| 0 <= i < s.len() ==> plain_char(#[trigger] s[i])
}

/// A local as the compiler writes it: `%` and a plain name.
pub open spec fn local_ref(s: Seq<char>) -> bool {
    s.len() > 1 && s[0] == '%' && plain(s.drop_first())
}

/// An operand as the compiler writes it: a local, `true`, `false` or an integer.
pub open spec fn value_ok(s: Seq<char>) -> bool {
    local_ref(s) || (plain(s) && (s == "true"@ || s == "false"@ || parse_i64(s) is Some))
}

/// The machine operand that a written operand denotes.
pub open spec fn tr_operand(s: Seq<char>) -> OperandV {
    if s.len() > 0 && s[0] == '%' {
        OperandV::Local(s.drop_first())
    } else if s == "true"@ {
        OperandV::ConstBool(true)
    } else if s == "false"@ {
        OperandV::ConstBool(false)
    } else {
        match parse_i64(s) {
            Some(v) => OperandV::ConstInt(v),
            None => OperandV::ConstInt(0),
        }
    }
}

/// A sequence without whitespace at either end is its own trim.
pub proof fn lemma_trim_tight(s: Seq<char>)
    requires
        s.len() == 0 || (!spec_is_whitespace(s[0]) && !spec_is_whitespace(s.last())),
    ensures
        trim(s) == s,
{
    if s.len() == 0 {
        lemma_trim_start(s, 0);
        lemma_trim_end(s, 0);
    } else {
        lemma_trim_start(s, 0);
        assert(s.skip(0) =~= s);
        lemma_trim_end(s, s.len() as int);
        assert(s.take(s.len() as int) =~= s);
    }
}

/// A plain sequence, or a local, holds no whitespace at its ends.
pub proof fn lemma_value_tight(s: Seq<char>)
    requires
        value_ok(s),
    ensures
        trim(s) == s,
        s.len() > 0,
        forall|i: int| 0 <= i < s.len() ==> !spec_is_whitespace(#[trigger] s[i]),
{
    if local_ref(s) {
        assert forall|i: int| 0 <= i < s.len() implies !spec_is_whitespace(#[trigger] s[i]) by {
            if i > 0 {
                assert(s[i] == s.drop_first()[i - 1]);
            }
        }
    }
    lemma_trim_tight(s);
}

/// A written operand reads back as the operand it denotes.
pub proof fn lemma_operand_reads_back(s: Seq<char>)
    requires
        value_ok(s),
    ensures
        spec_parse_operand(s) == Ok::<OperandV, crate::vm::reader::IrErr>(tr_operand(s)),
{
    lemma_value_tight(s);
    if local_ref(s) {
        assert(s[1] == s.drop_first()[0]);
        lemma_trim_start_matches(s, '%', 1);
        assert(s.skip(1) =~= s.drop_first());
    }
}

/// No character of `s` is `c`.
pub open spec fn lacks(s: Seq<char>, c: char) -> bool {
    forall|i: int| 0 <= i < s.len() ==> #[trigger] s[i] != c
}

/// Plain text lacks every punctuation character of the IR.
pub proof fn lemma_plain_lacks(s: Seq<char>)
    requires
        plain(s),
    ensures
        lacks(s, '='), lacks(s, ','), lacks(s, ';'), lacks(s, '['), lacks(s, ']'),
        lacks(s, '('), lacks(s, ')'), lacks(s, '@'), lacks(s, ':'), lacks(s, '%'),
        forall|i: int| 0 <= i < s.len() ==> !spec_is_whitespace(#[trigger] s[i]),
{
}

/// A written operand lacks the separators that surround it.
pub proof fn lemma_value_lacks(s: Seq<char>)
    requires
        value_ok(s),
    ensures
        lacks(s, '='), lacks(s, ','), lacks(s, ';'), lacks(s, '['), lacks(s, ']'),
        lacks(s, '('), lacks(s, ')'), lacks(s, '@'), lacks(s, ':'),
        forall|i: int| 0 <= i < s.len() ==> !spec_is_whitespace(#[trigger] s[i]),
        s.len() > 0,
{
    if local_ref(s) {
        assert forall|i: int| 1 <= i < s.len() implies plain_char(#[trigger] s[i]) by {
            assert(s[i] == s.drop_first()[i - 1]);
        }
    }
}

/// Splitting `a` + `c` + `b` at the first `c`, where `a` lacks `c`.
pub proof fn lemma_split_once_at(a: Seq<char>, c: char, b: Seq<char>)
    requires
        lacks(a, c),
    ensures
        split_once(a + seq![c] + b, c) == Some((a, b)),
{
    let s = a + seq![c] + b;
    assert forall|k: int| 0 <= k < a.len() implies #[trigger] s[k] != c by {
        assert(s[k] == a[k]);
    }
    lemma_find(s, c, a.len() as int);
    assert(s.take(a.len() as int) =~= a);
    assert(s.skip(a.len() + 1 as int) =~= b);
}

/// Dropping the leading whitespace of `w + s`, where `w` is whitespace.
pub proof fn lemma_trim_start_pad(w: Seq<char>, s: Seq<char>)
    requires
        forall|i: int| 0 <= i < w.len() ==> spec_is_whitespace(#[trigger] w[i]),
        s.len() > 0 && !spec_is_whitespace(s[0]),
    ensures
        trim_start(w + s) == s,
{
    let t = w + s;
    assert forall|k: int| 0 <= k < w.len() implies spec_is_whitespace(#[trigger] t[k]) by {
        assert(t[k] == w[k]);
    }
    assert(t[w.len() as int] == s[0]);
    lemma_trim_start(t, w.len() as int);
    assert(t.skip(w.len() as int) =~= s);
}

/// The trim of `w1 + s + w2`, with whitespace pads and `s` tight at both ends.
pub proof fn lemma_trim_pads(w1: Seq<char>, s: Seq<char>, w2: Seq<char>)
    requires
        forall|i: int| 0 <= i < w1.len() ==> spec_is_whitespace(#[trigger] w1[i]),
        forall|i: int| 0 <= i < w2.len() ==> spec_is_whitespace(#[trigger] w2[i]),
        s.len() > 0 && !spec_is_whitespace(s[0]) && !spec_is_whitespace(s.last()),
    ensures
        trim(w1 + s + w2) == s,
{
    let t = w1 + s + w2;
    assert(t == w1 + (s + w2));
    lemma_trim_start_pad(w1, s + w2);
    let u = s + w2;
    assert forall|k: int| s.len() <= k < u.len() implies spec_is_whitespace(#[trigger] u[k]) by {
        assert(u[k] == w2[k - s.len()]);
    }
    assert(u[s.len() - 1] == s.last());
    lemma_trim_end(u, s.len() as int);
    assert(u.take(s.len() as int) =~= s);
}

/// `s` begins with a character other than whitespace and ends with one.
pub open spec fn tight(s: Seq<char>) -> bool {
    s.len() > 0 && !spec_is_whitespace(s[0]) && !spec_is_whitespace(s.last())
}

pub proof fn lemma_value_is_tight(s: Seq<char>)
    requires
        value_ok(s),
    ensures
        tight(s),
{
    lemma_value_lacks(s);
}

/// `" " + x` trims to `x` when `x` is tight.
pub proof fn lemma_trim_lead_space(x: Seq<char>)
    requires
        tight(x),
    ensures
        trim(" "@ + x) == x,
{
    reveal_strlit(" ");
    lemma_trim_pads(" "@, x, seq![]);
    assert(" "@ + x + Seq::<char>::empty() =~= " "@ + x);
}

/// Two operands `l, r` read back.
pub proof fn lemma_two_operands_read_back(l: Seq<char>, r: Seq<char>)
    requires
        value_ok(l),
        value_ok(r),
    ensures
        spec_parse_two_operands(l + ", "@ + r) == Ok::<(OperandV, OperandV), IrErr>((tr_operand(l), tr_operand(r))),
{
    reveal_strlit(", ");
    reveal_strlit(" ");
    lemma_value_lacks(l);
    lemma_value_lacks(r);
    assert(l + ", "@ + r =~= l + seq![','] + (" "@ + r));
    lemma_split_once_at(l, ',', " "@ + r);
    lemma_value_tight(l);
    lemma_trim_lead_space(r);
    lemma_operand_reads_back(l);
    lemma_operand_reads_back(r);
}

/// A type word and a space dropped from tight text.
pub proof fn lemma_strip_type_word(tyw: Seq<char>, x: Seq<char>)
    requires
        tyw == "i32"@ || tyw == "i1"@ || tyw == "void"@,
        tight(x),
    ensures
        spec_strip_type_prefix_any(tyw + " "@ + x) == Ok::<Seq<char>, IrErr>(x),
{
    reveal_strlit("i32");
    reveal_strlit("i1");
    reveal_strlit("void");
    reveal_strlit("void ");
    reveal_strlit(" ");
    reveal_strlit("i32 ");
    reveal_strlit("i1 ");
    let s = tyw + " "@ + x;
    assert(s.take(tyw.len() + 1 as int) =~= tyw + " "@);
    lemma_trim_start(s, 0);
    assert(s.skip(0) =~= s);
    assert forall|k: int| 0 <= k < tyw.len() implies !spec_is_whitespace(#[trigger] s[k]) by {
        assert(s[k] == tyw[k]);
    }
    assert(s[tyw.len() as int] == ' ');
    lemma_word_len(s, tyw.len() as int);
    assert(s.take(tyw.len() as int) =~= tyw);
    assert(s.skip(tyw.len() as int) =~= " "@ + x);
    lemma_trim_lead_space(x);
    assert(trim_start(s) == s);
    assert(first_word(s) == Some(tyw));
    assert(spec_strip_type_prefix(s) == Ok::<Seq<char>, IrErr>(x));
    if tyw == "i32"@ {
        assert(s.take(4) =~= "i32 "@);
    } else if tyw == "i1"@ {
        assert(s.take(3) =~= "i1 "@);
    } else {
        assert(s.take(5) =~= "void "@);
    }
}

/// The part of a two-operand line after the mnemonic reads back.
pub proof fn lemma_binop_reads_back(
    m: Seq<char>,
    tyw: Seq<char>,
    k: BinKind,
    dest: Seq<char>,
    l: Seq<char>,
    r: Seq<char>,
)
    requires
        tyw == "i32"@ || tyw == "i1"@,
        value_ok(l),
        value_ok(r),
    ensures
        spec_parse_binop(m + " "@ + tyw + " "@ + l + ", "@ + r, m, k, dest)
            == Ok::<InstrV, IrErr>(bin_instr(k, dest, tr_operand(l), tr_operand(r))),
{
    reveal_strlit("i32");
    reveal_strlit("i1");
    reveal_strlit(" ");
    reveal_strlit(", ");
    let rest = m + " "@ + tyw + " "@ + l + ", "@ + r;
    let after = " "@ + tyw + " "@ + l + ", "@ + r;
    let ops = l + ", "@ + r;
    assert(rest.take(m.len() as int) =~= m);
    assert(rest.skip(m.len() as int) =~= " "@ + (tyw + " "@ + ops));
    lemma_value_lacks(l);
    lemma_value_lacks(r);
    assert(ops[0] == l[0]);
    assert(ops.last() == r.last());
    let typed = tyw + " "@ + ops;
    assert(typed[0] == tyw[0]);
    assert(typed.last() == ops.last());
    lemma_trim_lead_space(typed);
    lemma_strip_type_word(tyw, ops);
    assert(tyw + " "@ + ops =~= typed);
    lemma_two_operands_read_back(l, r);
}

/// The halves of an assignment `dest = x`.
pub proof fn lemma_assignment(dest: Seq<char>, x: Seq<char>)
    requires
        local_ref(dest),
        tight(x),
    ensures
        split_once(dest + " = "@ + x, '=') == Some((dest + " "@, " "@ + x)),
        trim_start_matches(trim(dest + " "@), '%') == dest.drop_first(),
        trim(" "@ + x) == x,
{
    reveal_strlit(" = ");
    reveal_strlit(" ");
    lemma_value_lacks(dest);
    let d = dest + " "@;
    assert forall|i: int| 0 <= i < d.len() implies #[trigger] d[i] != '=' by {
        if i < dest.len() {
            assert(d[i] == dest[i]);
        }
    }
    assert(dest + " = "@ + x =~= d + seq!['='] + (" "@ + x));
    lemma_split_once_at(d, '=', " "@ + x);
    lemma_trim_pads(seq![], dest, " "@);
    assert(Seq::<char>::empty() + dest + " "@ =~= d);
    assert(dest[1] == dest.drop_first()[0]);
    lemma_trim_start_matches(dest, '%', 1);
    assert(dest.skip(1) =~= dest.drop_first());
    lemma_trim_lead_space(x);
}

/// `s` does not begin with `q` when they differ at `i`.
pub proof fn lemma_not_prefix(s: Seq<char>, q: Seq<char>, i: int)
    requires
        0 <= i < q.len(),
        i < s.len(),
        s[i] != q[i],
    ensures
        !starts_with(s, q),
{
    if starts_with(s, q) {
        assert(s.take(q.len() as int)[i] == s[i]);
    }
}

/// The mnemonic of a two-operand instruction.
pub open spec fn bin_mnemonic(k: BinKind) -> Seq<char> {
    match k {
        BinKind::Add => "add"@,
        BinKind::Sub => "sub"@,
        BinKind::Mul => "mul"@,
        BinKind::SDiv => "sdiv"@,
        BinKind::SRem => "srem"@,
        BinKind::And => "and"@,
        BinKind::Or => "or"@,
        BinKind::Xor => "xor"@,
    }
}

/// The operand type of a two-operand instruction: `i32`, or `i1` for logic.
pub open spec fn bin_type(k: BinKind) -> Seq<char> {
    match k {
        BinKind::And | BinKind::Or | BinKind::Xor => "i1"@,
        _ => "i32"@,
    }
}

/// A two-operand line `dest = op ty l, r` reads back.
#[verifier::spinoff_prover]
#[verifier::rlimit(50)]
pub proof fn lemma_binop_line(k: BinKind, dest: Seq<char>, l: Seq<char>, r: Seq<char>)
    requires
        local_ref(dest),
        value_ok(l),
        value_ok(r),
    ensures
        spec_parse_instruction(binop_text(dest, bin_mnemonic(k) + " "@ + bin_type(k) + " "@, l, r))
            == Ok::<InstrV, IrErr>(bin_instr(k, dest.drop_first(), tr_operand(l), tr_operand(r))),
{
    let m = bin_mnemonic(k);
    let tyw = bin_type(k);
    let x = m + " "@ + tyw + " "@ + l + ", "@ + r;
    reveal_strlit("add");
    reveal_strlit("sub");
    reveal_strlit("mul");
    reveal_strlit("sdiv");
    reveal_strlit("srem");
    reveal_strlit("and");
    reveal_strlit("or");
    reveal_strlit("xor");
    reveal_strlit("i32");
    reveal_strlit("i1");
    reveal_strlit(" ");
    reveal_strlit(", ");
    reveal_strlit("add ");
    reveal_strlit("sub ");
    reveal_strlit("mul ");
    reveal_strlit("sdiv ");
    reveal_strlit("srem ");
    reveal_strlit("and ");
    reveal_strlit("or ");
    reveal_strlit("xor ");
    lemma_value_lacks(r);
    assert(x[0] == m[0]);
    assert(x.last() == r.last());
    lemma_assignment(dest, x);
    assert(binop_text(dest, m + " "@ + tyw + " "@, l, r) =~= dest + " = "@ + x);
    assert(x.take(m.len() + 1 as int) =~= m + " "@);
    assert(x[0] == m[0]);
    assert(x[1] == m[1]);
    let line = dest + " = "@ + x;
    let d = dest.drop_first();
    match k {
        BinKind::Add => {
            assert(m + " "@ =~= "add "@);
            assert(spec_parse_instruction(line) == spec_parse_binop(x, m, k, d));
        },
        BinKind::Sub => {
            assert(m + " "@ =~= "sub "@);
            lemma_not_prefix(x, "add "@, 0);
            assert(spec_parse_instruction(line) == spec_parse_binop(x, m, k, d));
        },
        BinKind::Mul => {
            assert(m + " "@ =~= "mul "@);
            lemma_not_prefix(x, "add "@, 0);
            lemma_not_prefix(x, "sub "@, 0);
            assert(spec_parse_instruction(line) == spec_parse_binop(x, m, k, d));
        },
        BinKind::SDiv => {
            assert(m + " "@ =~= "sdiv "@);
            lemma_not_prefix(x, "add "@, 0);
            lemma_not_prefix(x, "sub "@, 1);
            lemma_not_prefix(x, "mul "@, 0);
            assert(spec_parse_instruction(line) == spec_parse_binop(x, m, k, d));
        },
        BinKind::SRem => {
            assert(m + " "@ =~= "srem "@);
            lemma_not_prefix(x, "add "@, 0);
            lemma_not_prefix(x, "sub "@, 1);
            lemma_not_prefix(x, "mul "@, 0);
            lemma_not_prefix(x, "sdiv "@, 1);
            assert(spec_parse_instruction(line) == spec_parse_binop(x, m, k, d));
        },
        BinKind::And => {
            assert(m + " "@ =~= "and "@);
            lemma_not_prefix(x, "add "@, 1);
            lemma_not_prefix(x, "sub "@, 0);
            lemma_not_prefix(x, "mul "@, 0);
            lemma_not_prefix(x, "sdiv "@, 0);
            lemma_not_prefix(x, "srem "@, 0);
            assert(spec_parse_instruction(line) == spec_parse_binop(x, m, k, d));
        },
        BinKind::Or => {
            assert(m + " "@ =~= "or "@);
            lemma_not_prefix(x, "add "@, 0);
            lemma_not_prefix(x, "sub "@, 0);
            lemma_not_prefix(x, "mul "@, 0);
            lemma_not_prefix(x, "sdiv "@, 0);
            lemma_not_prefix(x, "srem "@, 0);
            lemma_not_prefix(x, "and "@, 0);
            assert(spec_parse_instruction(line) == spec_parse_binop(x, m, k, d));
        },
        BinKind::Xor => {
            assert(m + " "@ =~= "xor "@);
            lemma_not_prefix(x, "add "@, 0);
            lemma_not_prefix(x, "sub "@, 0);
            lemma_not_prefix(x, "mul "@, 0);
            lemma_not_prefix(x, "sdiv "@, 0);
            lemma_not_prefix(x, "srem "@, 0);
            lemma_not_prefix(x, "and "@, 0);
            lemma_not_prefix(x, "or "@, 0);
            assert(spec_parse_instruction(line) == spec_parse_binop(x, m, k, d));
        },
    }
    lemma_binop_reads_back(m, tyw, k, dest.drop_first(), l, r);
}

/// Splitting at `c` distributes over a `c` that joins two parts.
pub proof fn lemma_split_concat(a: Seq<char>, c: char, b: Seq<char>)
    ensures
        split(a + seq![c] + b, c) == split(a, c) + split(b, c),
    decreases a.len(),
{
    let s = a + seq![c] + b;
    lemma_find_bounds(a, c);
    match find(a, c) {
        None => {
            lemma_split_once_at(a, c, b);
            lemma_find_bounds(s, c);
            assert forall|k: int| 0 <= k < a.len() implies #[trigger] s[k] != c by {
                assert(s[k] == a[k]);
            }
            lemma_find(s, c, a.len() as int);
            assert(s.take(a.len() as int) =~= a);
            assert(s.skip(a.len() + 1 as int) =~= b);
        },
        Some(i) => {
            assert forall|k: int| 0 <= k < i implies #[trigger] s[k] != c by {
                assert(s[k] == a[k]);
            }
            assert(s[i] == a[i]);
            lemma_find(s, c, i);
            lemma_find(a, c, i);
            let a2 = a.skip(i + 1);
            assert(s.skip(i + 1) =~= a2 + seq![c] + b);
            assert(s.take(i) =~= a.take(i));
            lemma_split_concat(a2, c, b);
        },
    }
}

/// Pieces joined by `", "`, in the shape that the compiler writes lists.
pub open spec fn join(ps: Seq<Seq<char>>) -> Seq<char>
    decreases ps.len(),
{
    if ps.len() == 0 {
        seq![]
    } else if ps.len() == 1 {
        ps[0]
    } else {
        join(ps.drop_last()) + ", "@ + ps.last()
    }
}

/// The pieces as `split` gives them back: every piece after the first keeps
/// the space that followed its comma.
pub open spec fn spaced(ps: Seq<Seq<char>>) -> Seq<Seq<char>> {
    Seq::new(ps.len(), |i: int| if i == 0 { ps[0] } else { " "@ + ps[i] })
}

/// Splitting a non-empty joined list at commas gives its spaced pieces.
pub proof fn lemma_split_join(ps: Seq<Seq<char>>)
    requires
        ps.len() > 0,
        forall|i: int| 0 <= i < ps.len() ==> lacks(#[trigger] ps[i], ','),
    ensures
        split(join(ps), ',') == spaced(ps),
    decreases ps.len(),
{
    reveal_strlit(", ");
    reveal_strlit(" ");
    if ps.len() == 1 {
        let p = ps[0];
        lemma_find_bounds(p, ',');
        if find(p, ',') is Some {
            assert(false);
        }
        assert(split(p, ',') =~= seq![p]);
        assert(spaced(ps) =~= seq![p]);
    } else {
        let init = ps.drop_last();
        assert forall|i: int| 0 <= i < init.len() implies lacks(#[trigger] init[i], ',') by {
            assert(init[i] == ps[i]);
        }
        lemma_split_join(init);
        let last = " "@ + ps.last();
        assert(join(ps) =~= join(init) + seq![','] + last);
        lemma_split_concat(join(init), ',', last);
        assert(lacks(ps.last(), ','));
        assert(lacks(last, ',')) by {
            assert forall|k: int| 0 <= k < last.len() implies #[trigger] last[k] != ',' by {
                if k > 0 {
                    assert(last[k] == ps.last()[k - 1]);
                }
            }
        }
        lemma_find_bounds(last, ',');
        if find(last, ',') is Some {
            assert(false);
        }
        assert(split(last, ',') =~= seq![last]);
        assert(spaced(ps) =~= spaced(init) + seq![last]);
    }
}

/// No character of `s` is whitespace.
pub open spec fn solid(s: Seq<char>) -> bool {
    s.len() > 0 && forall|i: int| 0 <= i < s.len() ==> !spec_is_whitespace(#[trigger] s[i])
}

/// The words of `w + " " + y`.
pub proof fn lemma_words(w: Seq<char>, y: Seq<char>)
    requires
        solid(w),
    ensures
        first_word(w + " "@ + y) == Some(w),
        trim_start(w + " "@ + y) == w + " "@ + y,
        (w + " "@ + y).skip(w.len() as int) == " "@ + y,
        solid(y) ==> second_word(w + " "@ + y) == Some(y),
{
    reveal_strlit(" ");
    let s = w + " "@ + y;
    lemma_trim_start(s, 0);
    assert(s.skip(0) =~= s);
    assert forall|k: int| 0 <= k < w.len() implies !spec_is_whitespace(#[trigger] s[k]) by {
        assert(s[k] == w[k]);
    }
    assert(s[w.len() as int] == ' ');
    lemma_word_len(s, w.len() as int);
    assert(s.take(w.len() as int) =~= w);
    assert(s.skip(w.len() as int) =~= " "@ + y);
    if solid(y) {
        let t = " "@ + y;
        assert(t[0] == ' ');
        lemma_trim_start(t, 1);
        assert(t.skip(1) =~= y);
        lemma_trim_start(y, 0);
        assert(y.skip(0) =~= y);
        lemma_word_len(y, y.len() as int);
        assert(y.take(y.len() as int) =~= y);
    }
}

/// A type's name is one solid word.
pub proof fn lemma_ty_text_solid(t: Type)
    ensures
        solid(ty_text(t)),
        lacks(ty_text(t), ','),
{
    reveal_strlit("i32");
    reveal_strlit("i1");
    reveal_strlit("void");
}

/// Reading call arguments that each trim to `type value`.
pub proof fn lemma_call_args_read_back(qs: Seq<Seq<char>>, tys: Seq<Seq<char>>, vs: Seq<Seq<char>>)
    requires
        qs.len() == vs.len(),
        tys.len() == vs.len(),
        forall|i: int| 0 <= i < qs.len() ==> trim(#[trigger] qs[i]) == tys[i] + " "@ + vs[i],
        forall|i: int| 0 <= i < qs.len() ==> solid(#[trigger] tys[i]),
        forall|i: int| 0 <= i < qs.len() ==> value_ok(#[trigger] vs[i]),
    ensures
        spec_call_args(qs) == Ok::<Seq<OperandV>, IrErr>(vs.map_values(|v: Seq<char>| tr_operand(v))),
    decreases qs.len(),
{
    if qs.len() > 0 {
        assert(trim(qs[0]) == tys[0] + " "@ + vs[0]);
        assert(solid(tys[0]));
        assert(value_ok(vs[0]));
        lemma_value_lacks(vs[0]);
        lemma_words(tys[0], vs[0]);
        lemma_operand_reads_back(vs[0]);
        let q2 = qs.drop_first();
        let t2 = tys.drop_first();
        let v2 = vs.drop_first();
        assert forall|i: int| 0 <= i < q2.len() implies trim(#[trigger] q2[i]) == t2[i] + " "@ + v2[i] by {
            assert(q2[i] == qs[i + 1]);
        }
        assert forall|i: int| 0 <= i < q2.len() implies solid(#[trigger] t2[i]) by {
            assert(t2[i] == tys[i + 1]);
        }
        assert forall|i: int| 0 <= i < q2.len() implies value_ok(#[trigger] v2[i]) by {
            assert(v2[i] == vs[i + 1]);
        }
        lemma_call_args_read_back(q2, t2, v2);
        assert(vs.map_values(|v: Seq<char>| tr_operand(v)) =~= seq![tr_operand(vs[0])] + v2.map_values(|v: Seq<char>| tr_operand(v)));
    } else {
        assert(vs.map_values(|v: Seq<char>| tr_operand(v)) =~= Seq::<OperandV>::empty());
    }
}

/// The argument list that the compiler writes is the join of its arguments.
pub proof fn lemma_args_text_join(xs: Seq<(Type, Seq<char>)>)
    ensures
        args_text(xs) == join(xs.map_values(|a: (Type, Seq<char>)| typed_arg_text(a))),
    decreases xs.len(),
{
    let ps = xs.map_values(|a: (Type, Seq<char>)| typed_arg_text(a));
    if xs.len() > 1 {
        lemma_args_text_join(xs.drop_last());
        assert(ps.drop_last() =~= xs.drop_last().map_values(|a: (Type, Seq<char>)| typed_arg_text(a)));
    }
}

/// The arguments the compiler writes read back as their operands.
pub proof fn lemma_call_arg_list(xs: Seq<(Type, Seq<char>)>)
    requires
        xs.len() > 0,
        forall|i: int| 0 <= i < xs.len() ==> value_ok(#[trigger] xs[i].1),
    ensures
        spec_call_args(split(args_text(xs), ','))
            == Ok::<Seq<OperandV>, IrErr>(xs.map_values(|a: (Type, Seq<char>)| tr_operand(a.1))),
{
    reveal_strlit(" ");
    let ps = xs.map_values(|a: (Type, Seq<char>)| typed_arg_text(a));
    lemma_args_text_join(xs);
    assert forall|i: int| 0 <= i < ps.len() implies lacks(#[trigger] ps[i], ',') by {
        lemma_ty_text_solid(xs[i].0);
        lemma_value_lacks(xs[i].1);
        let p = ps[i];
        assert(p == ty_text(xs[i].0) + " "@ + xs[i].1);
        assert forall|k: int| 0 <= k < p.len() implies #[trigger] p[k] != ',' by {
            if k < ty_text(xs[i].0).len() {
                assert(p[k] == ty_text(xs[i].0)[k]);
            } else if k > ty_text(xs[i].0).len() {
                assert(p[k] == xs[i].1[k - ty_text(xs[i].0).len() - 1]);
            }
        }
    }
    lemma_split_join(ps);
    let qs = spaced(ps);
    let tys = xs.map_values(|a: (Type, Seq<char>)| ty_text(a.0));
    let vs = xs.map_values(|a: (Type, Seq<char>)| a.1);
    assert forall|i: int| 0 <= i < qs.len() implies trim(#[trigger] qs[i]) == tys[i] + " "@ + vs[i] by {
        lemma_ty_text_solid(xs[i].0);
        lemma_value_lacks(xs[i].1);
        let p = ps[i];
        assert(p == tys[i] + " "@ + vs[i]);
        assert(p[0] == tys[i][0]);
        assert(p.last() == vs[i].last());
        if i == 0 {
            lemma_trim_tight(p);
        } else {
            lemma_trim_lead_space(p);
        }
    }
    assert forall|i: int| 0 <= i < qs.len() implies solid(#[trigger] tys[i]) by {
        lemma_ty_text_solid(xs[i].0);
    }
    lemma_call_args_read_back(qs, tys, vs);
    assert(vs.map_values(|v: Seq<char>| tr_operand(v)) =~= xs.map_values(|a: (Type, Seq<char>)| tr_operand(a.1)));
}

/// `x` starts with `p` and goes on with `y`.
pub proof fn lemma_drop_prefix_concat(p: Seq<char>, y: Seq<char>)
    ensures
        starts_with(p + y, p),
        drop_prefix(p + y, p) == y,
{
    assert((p + y).take(p.len() as int) =~= p);
    assert((p + y).skip(p.len() as int) =~= y);
}

/// The part of a call line after `=` reads back.
pub proof fn lemma_call_reads_back(
    dest: Seq<char>,
    rt: Type,
    func: Seq<char>,
    args: Seq<(Type, Seq<char>)>,
)
    requires
        plain(func),
        forall|i: int| 0 <= i < args.len() ==> value_ok(#[trigger] args[i].1),
    ensures
        spec_parse_call("call "@ + ty_text(rt) + " @"@ + func + "("@ + args_text(args) + ")"@, Some(dest))
            == Ok::<InstrV, IrErr>(InstrV::Call {
                dest: Some(dest),
                func,
                args: args.map_values(|a: (Type, Seq<char>)| tr_operand(a.1)),
            }),
{
    reveal_strlit("call ");
    reveal_strlit(" @");
    reveal_strlit("@");
    reveal_strlit("(");
    reveal_strlit(")");
    reveal_strlit(" ");
    reveal_strlit("i32");
    reveal_strlit("i1");
    reveal_strlit("void");
    let a = args_text(args);
    let rtw = ty_text(rt);
    let after_at = func + "("@ + a + ")"@;
    let after = "@"@ + after_at;
    let x = "call "@ + (rtw + " "@ + after);
    assert("call "@ + ty_text(rt) + " @"@ + func + "("@ + a + ")"@ =~= x);
    lemma_drop_prefix_concat("call "@, rtw + " "@ + after);
    let typed = rtw + " "@ + after;
    assert(typed[0] == rtw[0]);
    assert(typed.last() == ')');
    lemma_trim_tight(typed);
    assert(after[0] == '@');
    assert(after.last() == ')');
    lemma_strip_type_word(rtw, after);
    lemma_find(after, '@', 0);
    assert(after.skip(1) =~= after_at);
    lemma_plain_lacks(func);
    assert forall|k: int| 0 <= k < func.len() implies #[trigger] after_at[k] != '(' by {
        assert(after_at[k] == func[k]);
    }
    assert(after_at[func.len() as int] == '(');
    lemma_find(after_at, '(', func.len() as int);
    lemma_rfind(after_at, ')', after_at.len() as int);
    assert(after_at.take(func.len() as int) =~= func);
    lemma_trim_tight(func);
    let lp = func.len() as int;
    let rp = after_at.len() - 1;
    assert(after_at.subrange(lp + 1, rp) =~= a);
    let tr_args = args.map_values(|p: (Type, Seq<char>)| tr_operand(p.1));
    if args.len() == 0 {
        assert(a =~= Seq::<char>::empty());
        lemma_trim_tight(a);
        assert(tr_args =~= Seq::<OperandV>::empty());
    } else {
        lemma_call_arg_list(args);
        lemma_args_text_join(args);
        lemma_args_tight(args);
        lemma_trim_tight(a);
    }
}

/// A non-empty argument list begins with a type name and ends with a value.
pub proof fn lemma_args_tight(xs: Seq<(Type, Seq<char>)>)
    requires
        xs.len() > 0,
        forall|i: int| 0 <= i < xs.len() ==> value_ok(#[trigger] xs[i].1),
    ensures
        tight(args_text(xs)),
    decreases xs.len(),
{
    reveal_strlit(" ");
    reveal_strlit(", ");
    let last = typed_arg_text(xs.last());
    lemma_ty_text_solid(xs.last().0);
    assert(value_ok(xs[xs.len() - 1].1));
    lemma_value_lacks(xs.last().1);
    assert(last.last() == xs.last().1.last());
    if xs.len() == 1 {
        assert(last[0] == ty_text(xs.last().0)[0]);
    } else {
        let init = xs.drop_last();
        assert forall|i: int| 0 <= i < init.len() implies value_ok(#[trigger] init[i].1) by {
            assert(init[i] == xs[i]);
        }
        lemma_args_tight(init);
        let t = args_text(init) + ", "@ + last;
        assert(t[0] == args_text(init)[0]);
        assert(t.last() == last.last());
    }
}

/// The part of a comparison line after `=` reads back.
pub proof fn lemma_icmp_reads_back(dest: Seq<char>, pred: Seq<char>, ty: Type, l: Seq<char>, r: Seq<char>)
    requires
        plain(pred),
        spec_parse_predicate(pred) is Ok,
        value_ok(l),
        value_ok(r),
    ensures
        spec_parse_icmp("icmp "@ + pred + " "@ + ty_text(ty) + " "@ + l + ", "@ + r, dest)
            == Ok::<InstrV, IrErr>(InstrV::ICmp {
                dest,
                pred: spec_parse_predicate(pred)->Ok_0,
                lhs: tr_operand(l),
                rhs: tr_operand(r),
            }),
{
    reveal_strlit("icmp ");
    reveal_strlit(" ");
    reveal_strlit(", ");
    reveal_strlit("i32");
    reveal_strlit("i1");
    reveal_strlit("void");
    let tyw = ty_text(ty);
    let ops = l + ", "@ + r;
    let typed = tyw + " "@ + ops;
    let after = pred + " "@ + typed;
    assert("icmp "@ + pred + " "@ + ty_text(ty) + " "@ + l + ", "@ + r =~= "icmp "@ + after);
    lemma_drop_prefix_concat("icmp "@, after);
    lemma_value_lacks(l);
    lemma_value_lacks(r);
    assert(after[0] == pred[0]);
    assert(after.last() == r.last());
    lemma_trim_tight(after);
    lemma_words(pred, typed);
    assert(drop_prefix(after, pred) == " "@ + typed);
    assert(typed[0] == tyw[0]);
    assert(typed.last() == r.last());
    lemma_trim_lead_space(typed);
    assert(ops[0] == l[0]);
    assert(ops.last() == r.last());
    lemma_strip_type_word(tyw, ops);
    lemma_two_operands_read_back(l, r);
}

/// The part of a load line after `=` reads back.
pub proof fn lemma_load_reads_back(dest: Seq<char>, ty: Type, ptr: Seq<char>)
    requires
        value_ok(ptr),
    ensures
        spec_parse_load("load "@ + ty_text(ty) + ", "@ + ty_text(ty) + "* "@ + ptr, dest)
            == Ok::<InstrV, IrErr>(InstrV::Load { dest, ptr: tr_operand(ptr) }),
{
    reveal_strlit("load ");
    reveal_strlit(" ");
    reveal_strlit(", ");
    reveal_strlit("* ");
    reveal_strlit("i32");
    reveal_strlit("i1");
    reveal_strlit("i32*");
    reveal_strlit("i1*");
    reveal_strlit("void*");
    reveal_strlit("void");
    let tyw = ty_text(ty);
    let tail = tyw + "* "@ + ptr;
    let after = tyw + ", "@ + tail;
    assert("load "@ + ty_text(ty) + ", "@ + ty_text(ty) + "* "@ + ptr =~= "load "@ + after);
    lemma_drop_prefix_concat("load "@, after);
    lemma_value_lacks(ptr);
    assert(after[0] == tyw[0]);
    assert(after.last() == ptr.last());
    lemma_trim_tight(after);
    lemma_ty_text_solid(ty);
    assert(after =~= tyw + seq![','] + (" "@ + tail));
    lemma_split_once_at(tyw, ',', " "@ + tail);
    assert(tail[0] == tyw[0]);
    assert(tail.last() == ptr.last());
    lemma_trim_lead_space(tail);
    if ty == Type::I32 {
        assert(tail =~= "i32*"@ + (" "@ + ptr));
        lemma_drop_prefix_concat("i32*"@, " "@ + ptr);
    } else if ty == Type::Bool {
        assert(tail =~= "i1*"@ + (" "@ + ptr));
        lemma_drop_prefix_concat("i1*"@, " "@ + ptr);
        lemma_not_prefix(tail, "i32*"@, 1);
    } else {
        assert(tail =~= "void*"@ + (" "@ + ptr));
        lemma_drop_prefix_concat("void*"@, " "@ + ptr);
        lemma_not_prefix(tail, "i32*"@, 0);
        lemma_not_prefix(tail, "i1*"@, 0);
    }
    assert(strip_ptr_type(tail) == " "@ + ptr);
    lemma_value_is_tight(ptr);
    lemma_trim_lead_space(ptr);
    lemma_operand_reads_back(ptr);
}

/// The first incoming of a phi, and the text after it.
pub proof fn lemma_one_incoming(junk: Seq<char>, v: Seq<char>, l: Seq<char>, rest: Seq<char>)
    requires
        lacks(junk, '['),
        value_ok(v),
        plain(l),
    ensures
        spec_phi_incomings(junk + incoming_text((v, l)) + rest) == match spec_phi_incomings(rest) {
            Ok(more) => Ok(seq![(tr_operand(v), l)] + more),
            Err(e) => Err(e),
        },
{
    reveal_strlit("[ ");
    reveal_strlit(", %");
    reveal_strlit(" ]");
    reveal_strlit(" ");
    reveal_strlit(" %");
    reveal_strlit("%");
    let s = junk + incoming_text((v, l)) + rest;
    let start = junk.len() as int;
    lemma_value_lacks(v);
    lemma_plain_lacks(l);
    assert forall|k: int| 0 <= k < start implies #[trigger] s[k] != '[' by {
        assert(s[k] == junk[k]);
    }
    assert(s[start] == '[');
    lemma_find(s, '[', start);
    let t = s.skip(start);
    let off: int = (v.len() + l.len() + 6) as int;
    assert forall|k: int| 0 <= k < off implies #[trigger] t[k] != ']' by {
        if 2 <= k < 2 + v.len() {
            assert(t[k] == v[k - 2]);
        } else if 5 + v.len() <= k < 5 + v.len() + l.len() {
            assert(t[k] == l[k - 5 - v.len()]);
        }
    }
    assert(t[off] == ']');
    lemma_find(t, ']', off);
    let end = start + off;
    let inner = " "@ + (v + ", %"@ + l) + " "@;
    assert(s.subrange(start + 1, end) =~= inner);
    let chunk = v + ", %"@ + l;
    assert(chunk[0] == v[0]);
    assert(chunk.last() == l.last());
    lemma_trim_pads(" "@, chunk, " "@);
    let bb = " %"@ + l;
    assert(chunk =~= v + seq![','] + bb);
    lemma_split_once_at(v, ',', bb);
    assert(lacks(bb, ',')) by {
        assert forall|k: int| 0 <= k < bb.len() implies #[trigger] bb[k] != ',' by {
            if k >= 2 {
                assert(bb[k] == l[k - 2]);
            }
        }
    }
    lemma_find_bounds(bb, ',');
    if find(bb, ',') is Some {
        assert(false);
    }
    assert forall|k: int| 0 <= k < v.len() implies #[trigger] chunk[k] != ',' by {
        assert(chunk[k] == v[k]);
    }
    assert(chunk[v.len() as int] == ',');
    lemma_find(chunk, ',', v.len() as int);
    assert(chunk.take(v.len() as int) =~= v);
    lemma_value_tight(v);
    lemma_operand_reads_back(v);
    let pl = "%"@ + l;
    assert(bb =~= " "@ + pl);
    assert(pl[0] == '%');
    assert(pl.last() == l.last());
    lemma_trim_lead_space(pl);
    assert(pl[1] == l[0]);
    lemma_trim_start_matches(pl, '%', 1);
    assert(pl.skip(1) =~= l);
    assert(s.skip(end + 1) =~= rest);
}

/// A list of incomings, first item split off.
pub proof fn lemma_incomings_front(xs: Seq<(Seq<char>, Seq<char>)>)
    requires
        xs.len() >= 2,
    ensures
        incomings_text(xs) == incoming_text(xs[0]) + ", "@ + incomings_text(xs.drop_first()),
    decreases xs.len(),
{
    let df = xs.drop_first();
    let dl = xs.drop_last();
    if xs.len() > 2 {
        lemma_incomings_front(dl);
        assert(dl.drop_first() =~= df.drop_last());
        assert(dl[0] == xs[0]);
        assert(df.last() == xs.last());
        assert(incomings_text(df) == incomings_text(df.drop_last()) + ", "@ + incoming_text(df.last()));
        assert(incomings_text(xs) == incomings_text(dl) + ", "@ + incoming_text(xs.last()));
        assert(incomings_text(xs) =~= incoming_text(xs[0]) + ", "@ + incomings_text(df));
    } else {
        assert(df.len() == 1);
        assert(dl.len() == 1);
        assert(df[0] == xs.last());
        assert(dl[0] == xs[0]);
        assert(incomings_text(df) == incoming_text(df[0]));
        assert(incomings_text(dl) == incoming_text(dl[0]));
    }
}

/// The incomings that the compiler writes, after text without `[`, read back.
pub proof fn lemma_incomings_read_back(junk: Seq<char>, xs: Seq<(Seq<char>, Seq<char>)>)
    requires
        lacks(junk, '['),
        forall|i: int| 0 <= i < xs.len() ==> value_ok(#[trigger] xs[i].0) && plain(xs[i].1),
    ensures
        spec_phi_incomings(junk + incomings_text(xs))
            == Ok::<Seq<(OperandV, Seq<char>)>, IrErr>(xs.map_values(|p: (Seq<char>, Seq<char>)| (tr_operand(p.0), p.1))),
    decreases xs.len(),
{
    reveal_strlit(", ");
    let out = xs.map_values(|p: (Seq<char>, Seq<char>)| (tr_operand(p.0), p.1));
    if xs.len() == 0 {
        lemma_find_bounds(junk, '[');
        if find(junk, '[') is Some {
            assert(false);
        }
        assert(junk + incomings_text(xs) =~= junk);
        assert(out =~= Seq::<(OperandV, Seq<char>)>::empty());
    } else {
        assert(value_ok(xs[0].0) && plain(xs[0].1));
        if xs.len() == 1 {
            lemma_one_incoming(junk, xs[0].0, xs[0].1, seq![]);
            assert(junk + incoming_text((xs[0].0, xs[0].1)) + Seq::<char>::empty() =~= junk + incomings_text(xs));
            lemma_incomings_read_back(seq![], seq![]);
            assert(Seq::<char>::empty() + incomings_text(Seq::<(Seq<char>, Seq<char>)>::empty()) =~= Seq::<char>::empty());
            assert(out =~= seq![(tr_operand(xs[0].0), xs[0].1)]);
        } else {
            let tail = xs.drop_first();
            lemma_incomings_front(xs);
            let rest = ", "@ + incomings_text(tail);
            lemma_one_incoming(junk, xs[0].0, xs[0].1, rest);
            assert(junk + incoming_text((xs[0].0, xs[0].1)) + rest =~= junk + incomings_text(xs));
            assert forall|i: int| 0 <= i < tail.len() implies value_ok(#[trigger] tail[i].0) && plain(tail[i].1) by {
                assert(tail[i] == xs[i + 1]);
            }
            lemma_incomings_read_back(", "@, tail);
            assert(out =~= seq![(tr_operand(xs[0].0), xs[0].1)] + tail.map_values(|p: (Seq<char>, Seq<char>)| (tr_operand(p.0), p.1)));
        }
    }
}

/// The part of a phi line after `=` reads back.
pub proof fn lemma_phi_reads_back(dest: Seq<char>, ty: Type, xs: Seq<(Seq<char>, Seq<char>)>)
    requires
        forall|i: int| 0 <= i < xs.len() ==> value_ok(#[trigger] xs[i].0) && plain(xs[i].1),
    ensures
        spec_parse_phi("phi "@ + ty_text(ty) + " "@ + incomings_text(xs), dest)
            == Ok::<InstrV, IrErr>(InstrV::Phi {
                dest,
                incomings: xs.map_values(|p: (Seq<char>, Seq<char>)| (tr_operand(p.0), p.1)),
            }),
{
    reveal_strlit("phi ");
    reveal_strlit(" ");
    reveal_strlit("i32");
    reveal_strlit("i1");
    reveal_strlit("void");
    reveal_strlit("[ ");
    let tyw = ty_text(ty);
    let inc = incomings_text(xs);
    let after = tyw + " "@ + inc;
    assert("phi "@ + ty_text(ty) + " "@ + inc =~= "phi "@ + after);
    lemma_drop_prefix_concat("phi "@, after);
    lemma_ty_text_solid(ty);
    if xs.len() == 0 {
        assert(after =~= tyw + " "@ + Seq::<char>::empty());
        lemma_trim_pads(seq![], tyw, " "@);
        assert(Seq::<char>::empty() + tyw + " "@ =~= after);
        if ty == Type::I32 {
            assert(tyw =~= "i32"@ + Seq::<char>::empty());
            lemma_drop_prefix_concat("i32"@, seq![]);
        } else if ty == Type::Bool {
            assert(tyw =~= "i1"@ + Seq::<char>::empty());
            lemma_drop_prefix_concat("i1"@, seq![]);
            lemma_not_prefix(tyw, "i32"@, 1);
        } else {
            assert(tyw =~= "void"@ + Seq::<char>::empty());
            lemma_drop_prefix_concat("void"@, seq![]);
            lemma_not_prefix(tyw, "i32"@, 0);
            lemma_not_prefix(tyw, "i1"@, 0);
        }
        lemma_trim_tight(Seq::<char>::empty());
        lemma_incomings_read_back(seq![], xs);
        assert(Seq::<char>::empty() + inc =~= Seq::<char>::empty());
    } else {
        lemma_incomings_tight(xs);
        assert(after[0] == tyw[0]);
        assert(after.last() == inc.last());
        lemma_trim_tight(after);
        if ty == Type::I32 {
            assert(after =~= "i32"@ + (" "@ + inc));
            lemma_drop_prefix_concat("i32"@, " "@ + inc);
        } else if ty == Type::Bool {
            assert(after =~= "i1"@ + (" "@ + inc));
            lemma_drop_prefix_concat("i1"@, " "@ + inc);
            lemma_not_prefix(after, "i32"@, 1);
        } else {
            assert(after =~= "void"@ + (" "@ + inc));
            lemma_drop_prefix_concat("void"@, " "@ + inc);
            lemma_not_prefix(after, "i32"@, 0);
            lemma_not_prefix(after, "i1"@, 0);
        }
        lemma_trim_lead_space(inc);
        lemma_incomings_read_back(seq![], xs);
        assert(Seq::<char>::empty() + inc =~= inc);
    }
}

/// A non-empty incoming list begins with `[` and ends with `]`.
pub proof fn lemma_incomings_tight(xs: Seq<(Seq<char>, Seq<char>)>)
    requires
        xs.len() > 0,
    ensures
        tight(incomings_text(xs)),
    decreases xs.len(),
{
    reveal_strlit("[ ");
    reveal_strlit(" ]");
    reveal_strlit(", ");
    let last = incoming_text(xs.last());
    assert(last.last() == ']');
    if xs.len() == 1 {
        assert(last[0] == '[');
    } else {
        lemma_incomings_tight(xs.drop_last());
        let t = incomings_text(xs.drop_last()) + ", "@ + last;
        assert(t[0] == incomings_text(xs.drop_last())[0]);
        assert(t.last() == ']');
    }
}

/// A store line `store ty v, ty* p` reads back.
pub proof fn lemma_store_line(ty: Type, value: Seq<char>, ptr: Seq<char>)
    requires
        value_ok(value),
        value_ok(ptr),
    ensures
        starts_with("store "@ + ty_text(ty) + " "@ + value + ", "@ + ty_text(ty) + "* "@ + ptr, "store "@),
        spec_parse_store("store "@ + ty_text(ty) + " "@ + value + ", "@ + ty_text(ty) + "* "@ + ptr)
            == Ok::<InstrV, IrErr>(InstrV::Store { value: tr_operand(value), ptr: tr_operand(ptr) }),
{
    reveal_strlit("store ");
    reveal_strlit(" ");
    reveal_strlit(", ");
    reveal_strlit("* ");
    reveal_strlit("i32");
    reveal_strlit("i1");
    reveal_strlit("i32*");
    reveal_strlit("i1*");
    reveal_strlit("void*");
    reveal_strlit("void");
    let tyw = ty_text(ty);
    let head = tyw + " "@ + value;
    let tail = tyw + "* "@ + ptr;
    let after = head + ", "@ + tail;
    assert("store "@ + ty_text(ty) + " "@ + value + ", "@ + ty_text(ty) + "* "@ + ptr =~= "store "@ + after);
    lemma_drop_prefix_concat("store "@, after);
    lemma_value_lacks(value);
    lemma_value_lacks(ptr);
    lemma_ty_text_solid(ty);
    assert(after[0] == tyw[0]);
    assert(after.last() == ptr.last());
    lemma_trim_tight(after);
    assert(lacks(head, ',')) by {
        assert forall|k: int| 0 <= k < head.len() implies #[trigger] head[k] != ',' by {
            if k < tyw.len() {
                assert(head[k] == tyw[k]);
            } else if k > tyw.len() {
                assert(head[k] == value[k - tyw.len() - 1]);
            }
        }
    }
    assert(after =~= head + seq![','] + (" "@ + tail));
    lemma_split_once_at(head, ',', " "@ + tail);
    assert(tail[0] == tyw[0]);
    assert(tail.last() == ptr.last());
    lemma_trim_lead_space(tail);
    if ty == Type::I32 {
        assert(tail =~= "i32*"@ + (" "@ + ptr));
        lemma_drop_prefix_concat("i32*"@, " "@ + ptr);
    } else if ty == Type::Bool {
        assert(tail =~= "i1*"@ + (" "@ + ptr));
        lemma_drop_prefix_concat("i1*"@, " "@ + ptr);
        lemma_not_prefix(tail, "i32*"@, 1);
    } else {
        assert(tail =~= "void*"@ + (" "@ + ptr));
        lemma_drop_prefix_concat("void*"@, " "@ + ptr);
        lemma_not_prefix(tail, "i32*"@, 0);
        lemma_not_prefix(tail, "i1*"@, 0);
    }
    lemma_value_is_tight(ptr);
    lemma_trim_lead_space(ptr);
    assert(head[0] == tyw[0]);
    assert(head.last() == value.last());
    lemma_trim_tight(head);
    lemma_value_is_tight(value);
    lemma_strip_type_word(tyw, value);
    lemma_value_tight(value);
    lemma_operand_reads_back(value);
    lemma_operand_reads_back(ptr);
}

/// A return line `ret i32 v` reads back.
pub proof fn lemma_ret_line(value: Seq<char>)
    requires
        value_ok(value),
    ensures
        starts_with("ret i32 "@ + value, "ret "@),
        spec_parse_ret("ret i32 "@ + value) == Ok::<TerminatorV, IrErr>(TerminatorV::Ret { value: tr_operand(value) }),
{
    reveal_strlit("ret i32 ");
    reveal_strlit("ret ");
    reveal_strlit("i32");
    reveal_strlit(" ");
    let after = "i32"@ + " "@ + value;
    assert("ret i32 "@ + value =~= "ret "@ + after);
    lemma_drop_prefix_concat("ret "@, after);
    lemma_value_lacks(value);
    assert(after[0] == 'i');
    assert(after.last() == value.last());
    lemma_trim_tight(after);
    lemma_words("i32"@, value);
    lemma_value_is_tight(value);
    lemma_trim_lead_space(value);
    lemma_operand_reads_back(value);
}

/// A label reference `%name` names `name`.
pub proof fn lemma_label_target(l: Seq<char>)
    requires
        plain(l),
    ensures
        label_target("%"@ + l) == l,
        tight("%"@ + l),
{
    reveal_strlit("%");
    let t = "%"@ + l;
    assert(t[0] == '%');
    assert(t.last() == l.last());
    lemma_trim_tight(t);
    assert(t[1] == l[0]);
    lemma_trim_start_matches(t, '%', 1);
    assert(t.skip(1) =~= l);
}

/// A jump line `br label %l` reads back.
pub proof fn lemma_br_line(dest: Seq<char>)
    requires
        plain(dest),
    ensures
        starts_with("br label %"@ + dest, "br "@),
        !starts_with("br label %"@ + dest, "ret "@),
        spec_parse_br("br label %"@ + dest) == Ok::<TerminatorV, IrErr>(TerminatorV::Br { dest }),
{
    reveal_strlit("br label %");
    reveal_strlit("br ");
    reveal_strlit("ret ");
    reveal_strlit("label ");
    reveal_strlit("%");
    let after = "label "@ + ("%"@ + dest);
    let line = "br label %"@ + dest;
    assert(line =~= "br "@ + after);
    lemma_drop_prefix_concat("br "@, after);
    lemma_not_prefix(line, "ret "@, 0);
    lemma_label_target(dest);
    assert(after[0] == 'l');
    assert(after.last() == dest.last());
    lemma_trim_tight(after);
    lemma_drop_prefix_concat("label "@, "%"@ + dest);
}

/// The two targets `label %t, label %e` of a conditional jump.
proof fn lemma_two_targets(t: Seq<char>, e: Seq<char>)
    requires
        plain(t),
        plain(e),
    ensures
        ({
            let lt = "label "@ + ("%"@ + t);
            let le = "label "@ + ("%"@ + e);
            let rest = lt + seq![','] + (" "@ + le);
            &&& tight(rest)
            &&& rest[0] == 'l'
            &&& trim(first_piece(rest, ',')) == lt
            &&& second_piece(rest, ',') == Some(" "@ + le)
            &&& trim(" "@ + le) == le
            &&& strip_prefix(lt, "label "@) == Some("%"@ + t)
            &&& strip_prefix(le, "label "@) == Some("%"@ + e)
            &&& label_target("%"@ + t) == t
            &&& label_target("%"@ + e) == e
        }),
{
    reveal_strlit("label ");
    reveal_strlit(" ");
    reveal_strlit("%");
    let lt = "label "@ + ("%"@ + t);
    let le = "label "@ + ("%"@ + e);
    let rest = lt + seq![','] + (" "@ + le);
    lemma_plain_lacks(t);
    lemma_plain_lacks(e);
    assert(lacks(lt, ',')) by {
        assert forall|k: int| 0 <= k < lt.len() implies #[trigger] lt[k] != ',' by {
            if k >= 7 {
                assert(lt[k] == t[k - 7]);
            }
        }
    }
    assert(lacks(le, ',')) by {
        assert forall|k: int| 0 <= k < le.len() implies #[trigger] le[k] != ',' by {
            if k >= 7 {
                assert(le[k] == e[k - 7]);
            }
        }
    }
    assert(rest[0] == 'l');
    assert(rest.last() == e.last());
    assert forall|k: int| 0 <= k < lt.len() implies #[trigger] rest[k] != ',' by {
        assert(rest[k] == lt[k]);
    }
    assert(rest[lt.len() as int] == ',');
    lemma_find(rest, ',', lt.len() as int);
    assert(rest.take(lt.len() as int) =~= lt);
    assert(lt[0] == 'l');
    assert(lt.last() == t.last());
    lemma_trim_tight(lt);
    lemma_split_once_at(lt, ',', " "@ + le);
    let sle = " "@ + le;
    assert(lacks(sle, ',')) by {
        assert forall|k: int| 0 <= k < sle.len() implies #[trigger] sle[k] != ',' by {
            if k >= 1 {
                assert(sle[k] == le[k - 1]);
            }
        }
    }
    lemma_find_bounds(sle, ',');
    if find(sle, ',') is Some {
        assert(false);
    }
    assert(le[0] == 'l');
    assert(le.last() == e.last());
    lemma_trim_lead_space(le);
    lemma_drop_prefix_concat("label "@, "%"@ + t);
    lemma_drop_prefix_concat("label "@, "%"@ + e);
    lemma_label_target(t);
    lemma_label_target(e);
}

/// A conditional jump line `br i1 c, label %t, label %e` reads back.
#[verifier::spinoff_prover]
#[verifier::rlimit(100)]
pub proof fn lemma_cond_br_line(cond: Seq<char>, t: Seq<char>, e: Seq<char>)
    requires
        value_ok(cond),
        plain(t),
        plain(e),
    ensures
        starts_with("br i1 "@ + cond + ", label %"@ + t + ", label %"@ + e, "br "@),
        !starts_with("br i1 "@ + cond + ", label %"@ + t + ", label %"@ + e, "ret "@),
        spec_parse_br("br i1 "@ + cond + ", label %"@ + t + ", label %"@ + e)
            == Ok::<TerminatorV, IrErr>(TerminatorV::CondBr { cond: tr_operand(cond), then_dest: t, else_dest: e }),
{
    reveal_strlit("br i1 ");
    reveal_strlit("br ");
    reveal_strlit("ret ");
    reveal_strlit("label ");
    reveal_strlit("i1 ");
    reveal_strlit(", label %");
    reveal_strlit(" ");
    reveal_strlit("%");
    let lt = "label "@ + ("%"@ + t);
    let le = "label "@ + ("%"@ + e);
    let rest = lt + seq![','] + (" "@ + le);
    let a2 = cond + seq![','] + (" "@ + rest);
    let after = "i1 "@ + a2;
    let line = "br i1 "@ + cond + ", label %"@ + t + ", label %"@ + e;
    assert(line =~= "br "@ + after);
    lemma_drop_prefix_concat("br "@, after);
    lemma_not_prefix(line, "ret "@, 0);
    lemma_value_lacks(cond);
    lemma_two_targets(t, e);
    assert(after[0] == 'i');
    assert(after.last() == rest.last());
    lemma_trim_tight(after);
    lemma_not_prefix(after, "label "@, 0);
    lemma_drop_prefix_concat("i1 "@, a2);
    assert(a2[0] == cond[0]);
    assert(a2.last() == rest.last());
    lemma_trim_tight(a2);
    lemma_split_once_at(cond, ',', " "@ + rest);
    lemma_value_tight(cond);
    lemma_operand_reads_back(cond);
    lemma_trim_lead_space(rest);
}

pub proof fn lemma_lacks_concat(a: Seq<char>, b: Seq<char>, c: char)
    requires
        lacks(a, c),
        lacks(b, c),
    ensures
        lacks(a + b, c),
{
    assert forall|k: int| 0 <= k < (a + b).len() implies #[trigger] (a + b)[k] != c by {
        if k < a.len() {
            assert((a + b)[k] == a[k]);
        } else {
            assert((a + b)[k] == b[k - a.len()]);
        }
    }
}

/// The machine instruction that a compiled instruction's line denotes.
pub open spec fn tr_instr(i: cir::InstrV) -> InstrV {
    match i {
        cir::InstrV::Add { dest, lhs, rhs } => InstrV::Add { dest: dest.drop_first(), lhs: tr_operand(lhs), rhs: tr_operand(rhs) },
        cir::InstrV::Sub { dest, lhs, rhs } => InstrV::Sub { dest: dest.drop_first(), lhs: tr_operand(lhs), rhs: tr_operand(rhs) },
        cir::InstrV::Mul { dest, lhs, rhs } => InstrV::Mul { dest: dest.drop_first(), lhs: tr_operand(lhs), rhs: tr_operand(rhs) },
        cir::InstrV::SDiv { dest, lhs, rhs } => InstrV::SDiv { dest: dest.drop_first(), lhs: tr_operand(lhs), rhs: tr_operand(rhs) },
        cir::InstrV::SRem { dest, lhs, rhs } => InstrV::SRem { dest: dest.drop_first(), lhs: tr_operand(lhs), rhs: tr_operand(rhs) },
        cir::InstrV::And { dest, lhs, rhs } => InstrV::And { dest: dest.drop_first(), lhs: tr_operand(lhs), rhs: tr_operand(rhs) },
        cir::InstrV::Or { dest, lhs, rhs } => InstrV::Or { dest: dest.drop_first(), lhs: tr_operand(lhs), rhs: tr_operand(rhs) },
        cir::InstrV::Xor { dest, lhs, rhs } => InstrV::Xor { dest: dest.drop_first(), lhs: tr_operand(lhs), rhs: tr_operand(rhs) },
        cir::InstrV::ICmp { dest, pred, ty, lhs, rhs } => InstrV::ICmp {
            dest: dest.drop_first(),
            pred: spec_parse_predicate(pred)->Ok_0,
            lhs: tr_operand(lhs),
            rhs: tr_operand(rhs),
        },
        cir::InstrV::Call { dest, ret_ty, func, args } => InstrV::Call {
            dest: match dest {
                Some(d) => Some(d.drop_first()),
                None => None,
            },
            func,
            args: args.map_values(|a: (Type, Seq<char>)| tr_operand(a.1)),
        },
        cir::InstrV::Alloca { dest, ty } => InstrV::Alloca { dest: dest.drop_first() },
        cir::InstrV::Store { ty, value, ptr } => InstrV::Store { value: tr_operand(value), ptr: tr_operand(ptr) },
        cir::InstrV::Load { dest, ty, ptr } => InstrV::Load { dest: dest.drop_first(), ptr: tr_operand(ptr) },
        cir::InstrV::Phi { dest, ty, incomings } => InstrV::Phi {
            dest: dest.drop_first(),
            incomings: incomings.map_values(|p: (Seq<char>, Seq<char>)| (tr_operand(p.0), p.1)),
        },
    }
}

/// A compiled instruction whose parts are names and operands as the
/// compiler writes them, with value types (`i32`, `i1`) where the text
/// needs one, a destination on every call, and an incoming on every phi.
pub open spec fn instr_ok(i: cir::InstrV) -> bool {
    match i {
        cir::InstrV::Add { dest, lhs, rhs } => local_ref(dest) && value_ok(lhs) && value_ok(rhs),
        cir::InstrV::Sub { dest, lhs, rhs } => local_ref(dest) && value_ok(lhs) && value_ok(rhs),
        cir::InstrV::Mul { dest, lhs, rhs } => local_ref(dest) && value_ok(lhs) && value_ok(rhs),
        cir::InstrV::SDiv { dest, lhs, rhs } => local_ref(dest) && value_ok(lhs) && value_ok(rhs),
        cir::InstrV::SRem { dest, lhs, rhs } => local_ref(dest) && value_ok(lhs) && value_ok(rhs),
        cir::InstrV::And { dest, lhs, rhs } => local_ref(dest) && value_ok(lhs) && value_ok(rhs),
        cir::InstrV::Or { dest, lhs, rhs } => local_ref(dest) && value_ok(lhs) && value_ok(rhs),
        cir::InstrV::Xor { dest, lhs, rhs } => local_ref(dest) && value_ok(lhs) && value_ok(rhs),
        cir::InstrV::ICmp { dest, pred, ty, lhs, rhs } => local_ref(dest) && plain(pred)
            && spec_parse_predicate(pred) is Ok && value_ok(lhs) && value_ok(rhs),
        cir::InstrV::Call { dest, ret_ty, func, args } => dest matches Some(d) && local_ref(d)
            && plain(func)
            && forall|k: int| 0 <= k < args.len() ==> value_ok(#[trigger] args[k].1),
        cir::InstrV::Alloca { dest, ty } => local_ref(dest),
        cir::InstrV::Store { ty, value, ptr } => value_ok(value) && value_ok(ptr),
        cir::InstrV::Load { dest, ty, ptr } => local_ref(dest) && value_ok(ptr),
        cir::InstrV::Phi { dest, ty, incomings } => local_ref(dest) && incomings.len() > 0
            && forall|k: int| 0 <= k < incomings.len() ==> value_ok(#[trigger] incomings[k].0) && plain(incomings[k].1),
    }
}

/// The two-operand kind of a compiled instruction, if it has one.
pub open spec fn bin_kind_of(i: cir::InstrV) -> Option<BinKind> {
    match i {
        cir::InstrV::Add { .. } => Some(BinKind::Add),
        cir::InstrV::Sub { .. } => Some(BinKind::Sub),
        cir::InstrV::Mul { .. } => Some(BinKind::Mul),
        cir::InstrV::SDiv { .. } => Some(BinKind::SDiv),
        cir::InstrV::SRem { .. } => Some(BinKind::SRem),
        cir::InstrV::And { .. } => Some(BinKind::And),
        cir::InstrV::Or { .. } => Some(BinKind::Or),
        cir::InstrV::Xor { .. } => Some(BinKind::Xor),
        _ => None,
    }
}

/// How the reader dispatches an assignment that is not a two-operand one.
pub open spec fn dispatch_other(x: Seq<char>, d: Seq<char>) -> Result<InstrV, IrErr> {
    if starts_with(x, "icmp "@) {
        spec_parse_icmp(x, d)
    } else if starts_with(x, "call "@) {
        spec_parse_call(x, Some(d))
    } else if starts_with(x, "alloca "@) {
        Ok(InstrV::Alloca { dest: d })
    } else if starts_with(x, "load "@) {
        spec_parse_load(x, d)
    } else if starts_with(x, "phi "@) {
        spec_parse_phi(x, d)
    } else {
        Err(IrErr::UnsupportedInstruction(x))
    }
}

/// An assignment whose right side begins `icmp`, `call`, `alloca`, `load`
/// or `phi` reaches the reader of that instruction.
pub proof fn lemma_other_assignment(dest: Seq<char>, x: Seq<char>)
    requires
        local_ref(dest),
        tight(x),
        x.len() >= 2,
        x[0] == 'i' || x[0] == 'c' || x[0] == 'l' || x[0] == 'p' || (x[0] == 'a' && x[1] == 'l'),
        starts_with(x, "icmp "@) || starts_with(x, "call "@) || starts_with(x, "alloca "@)
            || starts_with(x, "load "@) || starts_with(x, "phi "@),
    ensures
        spec_parse_instruction(dest + " = "@ + x) == dispatch_other(x, dest.drop_first()),
{
    reveal_strlit("add ");
    reveal_strlit("sub ");
    reveal_strlit("mul ");
    reveal_strlit("sdiv ");
    reveal_strlit("srem ");
    reveal_strlit("and ");
    reveal_strlit("or ");
    reveal_strlit("xor ");
    lemma_assignment(dest, x);
    if x[0] == 'a' {
        lemma_not_prefix(x, "add "@, 1);
        lemma_not_prefix(x, "and "@, 1);
    } else {
        lemma_not_prefix(x, "add "@, 0);
        lemma_not_prefix(x, "and "@, 0);
    }
    lemma_not_prefix(x, "sub "@, 0);
    lemma_not_prefix(x, "mul "@, 0);
    lemma_not_prefix(x, "sdiv "@, 0);
    lemma_not_prefix(x, "srem "@, 0);
    lemma_not_prefix(x, "or "@, 0);
    lemma_not_prefix(x, "xor "@, 0);
}

/// The instruction-reading facts for one compiled instruction.
pub open spec fn reads_back(i: cir::InstrV) -> bool {
    &&& i is Store ==> starts_with(cir::instr_text(i), "store "@)
        && spec_parse_store(cir::instr_text(i)) == Ok::<InstrV, IrErr>(tr_instr(i))
    &&& !(i is Store) ==> cir::instr_text(i).len() > 0 && cir::instr_text(i)[0] == '%'
        && spec_parse_instruction(cir::instr_text(i)) == Ok::<InstrV, IrErr>(tr_instr(i))
}

proof fn lemma_binop_instr(i: cir::InstrV)
    requires
        instr_ok(i),
        bin_kind_of(i) is Some,
    ensures
        reads_back(i),
{
    reveal_strlit(" ");
    reveal_strlit(" = ");
    reveal_strlit("i32");
    reveal_strlit("i1");
    match i {
        cir::InstrV::Add { dest, lhs, rhs } => {
            reveal_strlit("add i32 ");
            reveal_strlit("add");
            assert("add i32 "@ =~= bin_mnemonic(BinKind::Add) + " "@ + bin_type(BinKind::Add) + " "@);
            lemma_binop_line(BinKind::Add, dest, lhs, rhs);
        },
        cir::InstrV::Sub { dest, lhs, rhs } => {
            reveal_strlit("sub i32 ");
            reveal_strlit("sub");
            assert("sub i32 "@ =~= bin_mnemonic(BinKind::Sub) + " "@ + bin_type(BinKind::Sub) + " "@);
            lemma_binop_line(BinKind::Sub, dest, lhs, rhs);
        },
        cir::InstrV::Mul { dest, lhs, rhs } => {
            reveal_strlit("mul i32 ");
            reveal_strlit("mul");
            assert("mul i32 "@ =~= bin_mnemonic(BinKind::Mul) + " "@ + bin_type(BinKind::Mul) + " "@);
            lemma_binop_line(BinKind::Mul, dest, lhs, rhs);
        },
        cir::InstrV::SDiv { dest, lhs, rhs } => {
            reveal_strlit("sdiv i32 ");
            reveal_strlit("sdiv");
            assert("sdiv i32 "@ =~= bin_mnemonic(BinKind::SDiv) + " "@ + bin_type(BinKind::SDiv) + " "@);
            lemma_binop_line(BinKind::SDiv, dest, lhs, rhs);
        },
        cir::InstrV::SRem { dest, lhs, rhs } => {
            reveal_strlit("srem i32 ");
            reveal_strlit("srem");
            assert("srem i32 "@ =~= bin_mnemonic(BinKind::SRem) + " "@ + bin_type(BinKind::SRem) + " "@);
            lemma_binop_line(BinKind::SRem, dest, lhs, rhs);
        },
        cir::InstrV::And { dest, lhs, rhs } => {
            reveal_strlit("and i1 ");
            reveal_strlit("and");
            assert("and i1 "@ =~= bin_mnemonic(BinKind::And) + " "@ + bin_type(BinKind::And) + " "@);
            lemma_binop_line(BinKind::And, dest, lhs, rhs);
        },
        cir::InstrV::Or { dest, lhs, rhs } => {
            reveal_strlit("or i1 ");
            reveal_strlit("or");
            assert("or i1 "@ =~= bin_mnemonic(BinKind::Or) + " "@ + bin_type(BinKind::Or) + " "@);
            lemma_binop_line(BinKind::Or, dest, lhs, rhs);
        },
        cir::InstrV::Xor { dest, lhs, rhs } => {
            reveal_strlit("xor i1 ");
            reveal_strlit("xor");
            assert("xor i1 "@ =~= bin_mnemonic(BinKind::Xor) + " "@ + bin_type(BinKind::Xor) + " "@);
            lemma_binop_line(BinKind::Xor, dest, lhs, rhs);
        },
        _ => {},
    }
    let t = cir::instr_text(i);
    match i {
        cir::InstrV::Add { dest, .. } | cir::InstrV::Sub { dest, .. } | cir::InstrV::Mul { dest, .. }
        | cir::InstrV::SDiv { dest, .. } | cir::InstrV::SRem { dest, .. } | cir::InstrV::And { dest, .. }
        | cir::InstrV::Or { dest, .. } | cir::InstrV::Xor { dest, .. } => {
            assert(t[0] == dest[0]);
        },
        _ => {},
    }
}

proof fn lemma_icmp_instr(dest: Seq<char>, pred: Seq<char>, ty: Type, lhs: Seq<char>, rhs: Seq<char>)
    requires
        instr_ok(cir::InstrV::ICmp { dest, pred, ty, lhs, rhs }),
    ensures
        reads_back(cir::InstrV::ICmp { dest, pred, ty, lhs, rhs }),
{
    reveal_strlit(" = ");
    reveal_strlit(" = icmp ");
    reveal_strlit("icmp ");
    let i = cir::InstrV::ICmp { dest, pred, ty, lhs, rhs };
    let t = cir::instr_text(i);
    let tail = pred + " "@ + ty_text(ty) + " "@ + lhs + ", "@ + rhs;
    let x = "icmp "@ + tail;
    assert(t =~= dest + " = "@ + x);
    lemma_value_lacks(rhs);
    assert(x.last() == rhs.last());
    lemma_drop_prefix_concat("icmp "@, tail);
    lemma_other_assignment(dest, x);
    assert("icmp "@ + pred + " "@ + ty_text(ty) + " "@ + lhs + ", "@ + rhs =~= x);
    lemma_icmp_reads_back(dest.drop_first(), pred, ty, lhs, rhs);
    assert(t[0] == dest[0]);
}

proof fn lemma_call_instr(dest: Option<Seq<char>>, ret_ty: Type, func: Seq<char>, args: Seq<(Type, Seq<char>)>)
    requires
        instr_ok(cir::InstrV::Call { dest, ret_ty, func, args }),
    ensures
        reads_back(cir::InstrV::Call { dest, ret_ty, func, args }),
{
    reveal_strlit(" = ");
    reveal_strlit("call ");
    reveal_strlit("icmp ");
    reveal_strlit(")");
    let i = cir::InstrV::Call { dest, ret_ty, func, args };
    let t = cir::instr_text(i);
    let d = dest->Some_0;
    let tail = ty_text(ret_ty) + " @"@ + func + "("@ + cir::args_text(args) + ")"@;
    let x = "call "@ + tail;
    assert(t =~= d + " = "@ + x);
    assert(x.last() == ')');
    lemma_drop_prefix_concat("call "@, tail);
    lemma_other_assignment(d, x);
    lemma_not_prefix(x, "icmp "@, 0);
    assert("call "@ + ty_text(ret_ty) + " @"@ + func + "("@ + cir::args_text(args) + ")"@ =~= x);
    lemma_call_reads_back(d.drop_first(), ret_ty, func, args);
    assert(t[0] == d[0]);
}

proof fn lemma_alloca_instr(dest: Seq<char>, ty: Type)
    requires
        instr_ok(cir::InstrV::Alloca { dest, ty }),
    ensures
        reads_back(cir::InstrV::Alloca { dest, ty }),
{
    reveal_strlit(" = ");
    reveal_strlit(" = alloca ");
    reveal_strlit("alloca ");
    reveal_strlit("icmp ");
    reveal_strlit("call ");
    let i = cir::InstrV::Alloca { dest, ty };
    let t = cir::instr_text(i);
    let x = "alloca "@ + ty_text(ty);
    assert(t =~= dest + " = "@ + x);
    lemma_ty_text_solid(ty);
    assert(x.last() == ty_text(ty).last());
    lemma_drop_prefix_concat("alloca "@, ty_text(ty));
    lemma_other_assignment(dest, x);
    lemma_not_prefix(x, "icmp "@, 0);
    lemma_not_prefix(x, "call "@, 0);
    assert(t[0] == dest[0]);
}

proof fn lemma_load_instr(dest: Seq<char>, ty: Type, ptr: Seq<char>)
    requires
        instr_ok(cir::InstrV::Load { dest, ty, ptr }),
    ensures
        reads_back(cir::InstrV::Load { dest, ty, ptr }),
{
    reveal_strlit(" = ");
    reveal_strlit(" = load ");
    reveal_strlit("load ");
    reveal_strlit("icmp ");
    reveal_strlit("call ");
    reveal_strlit("alloca ");
    let i = cir::InstrV::Load { dest, ty, ptr };
    let t = cir::instr_text(i);
    let tail = ty_text(ty) + ", "@ + ty_text(ty) + "* "@ + ptr;
    let x = "load "@ + tail;
    assert(t =~= dest + " = "@ + x);
    lemma_value_lacks(ptr);
    assert(x.last() == ptr.last());
    lemma_drop_prefix_concat("load "@, tail);
    lemma_other_assignment(dest, x);
    lemma_not_prefix(x, "icmp "@, 0);
    lemma_not_prefix(x, "call "@, 0);
    lemma_not_prefix(x, "alloca "@, 0);
    assert("load "@ + ty_text(ty) + ", "@ + ty_text(ty) + "* "@ + ptr =~= x);
    lemma_load_reads_back(dest.drop_first(), ty, ptr);
    assert(t[0] == dest[0]);
}

proof fn lemma_phi_instr(dest: Seq<char>, ty: Type, incomings: Seq<(Seq<char>, Seq<char>)>)
    requires
        instr_ok(cir::InstrV::Phi { dest, ty, incomings }),
    ensures
        reads_back(cir::InstrV::Phi { dest, ty, incomings }),
{
    reveal_strlit(" = ");
    reveal_strlit(" = phi ");
    reveal_strlit("phi ");
    reveal_strlit("icmp ");
    reveal_strlit("call ");
    reveal_strlit("alloca ");
    reveal_strlit("load ");
    let i = cir::InstrV::Phi { dest, ty, incomings };
    let t = cir::instr_text(i);
    let tail = ty_text(ty) + " "@ + incomings_text(incomings);
    let x = "phi "@ + tail;
    assert(t =~= dest + " = "@ + x);
    lemma_incomings_tight(incomings);
    assert(x.last() == incomings_text(incomings).last());
    lemma_drop_prefix_concat("phi "@, tail);
    lemma_other_assignment(dest, x);
    lemma_not_prefix(x, "icmp "@, 0);
    lemma_not_prefix(x, "call "@, 0);
    lemma_not_prefix(x, "alloca "@, 0);
    lemma_not_prefix(x, "load "@, 0);
    assert("phi "@ + ty_text(ty) + " "@ + incomings_text(incomings) =~= x);
    lemma_phi_reads_back(dest.drop_first(), ty, incomings);
    assert(t[0] == dest[0]);
}

/// Every line that the compiler writes for an instruction reads back as the
/// machine instruction it denotes: a store through the store reader, any
/// other instruction (which begins with its `%` destination) through the
/// assignment reader.
pub proof fn lemma_instr_reads_back(i: cir::InstrV)
    requires
        instr_ok(i),
    ensures
        reads_back(i),
{
    match i {
        cir::InstrV::ICmp { dest, pred, ty, lhs, rhs } => lemma_icmp_instr(dest, pred, ty, lhs, rhs),
        cir::InstrV::Call { dest, ret_ty, func, args } => lemma_call_instr(dest, ret_ty, func, args),
        cir::InstrV::Alloca { dest, ty } => lemma_alloca_instr(dest, ty),
        cir::InstrV::Store { ty, value, ptr } => {
            lemma_store_line(ty, value, ptr);
        },
        cir::InstrV::Load { dest, ty, ptr } => lemma_load_instr(dest, ty, ptr),
        cir::InstrV::Phi { dest, ty, incomings } => lemma_phi_instr(dest, ty, incomings),
        _ => lemma_binop_instr(i),
    }
}

/// The machine terminator that a compiled terminator's line denotes.
pub open spec fn tr_term(t: cir::TerminatorV) -> TerminatorV {
    match t {
        cir::TerminatorV::Ret { value } => TerminatorV::Ret { value: tr_operand(value) },
        cir::TerminatorV::Br { dest } => TerminatorV::Br { dest },
        cir::TerminatorV::CondBr { cond, then_dest, else_dest } => TerminatorV::CondBr {
            cond: tr_operand(cond),
            then_dest,
            else_dest,
        },
    }
}

/// A compiled terminator whose operand and labels are as the compiler writes them.
pub open spec fn term_ok(t: cir::TerminatorV) -> bool {
    match t {
        cir::TerminatorV::Ret { value } => value_ok(value),
        cir::TerminatorV::Br { dest } => plain(dest),
        cir::TerminatorV::CondBr { cond, then_dest, else_dest } => value_ok(cond) && plain(then_dest) && plain(else_dest),
    }
}

/// Every line that the compiler writes for a terminator reads back: a return
/// through the return reader, a jump through the branch reader.
pub proof fn lemma_term_reads_back(t: cir::TerminatorV)
    requires
        term_ok(t),
    ensures
        t is Ret ==> starts_with(cir::term_text(t), "ret "@)
            && spec_parse_ret(cir::term_text(t)) == Ok::<TerminatorV, IrErr>(tr_term(t)),
        !(t is Ret) ==> !starts_with(cir::term_text(t), "ret "@) && starts_with(cir::term_text(t), "br "@)
            && spec_parse_br(cir::term_text(t)) == Ok::<TerminatorV, IrErr>(tr_term(t)),
{
    match t {
        cir::TerminatorV::Ret { value } => lemma_ret_line(value),
        cir::TerminatorV::Br { dest } => lemma_br_line(dest),
        cir::TerminatorV::CondBr { cond, then_dest, else_dest } => lemma_cond_br_line(cond, then_dest, else_dest),
    }
}

/// Text that can stand inside one line: no comment marker, no line break,
/// no colon.
pub open spec fn one_line(s: Seq<char>) -> bool {
    lacks(s, ';') && lacks(s, '\n') && lacks(s, ':')
}

pub proof fn lemma_one_line_concat(a: Seq<char>, b: Seq<char>)
    requires
        one_line(a),
        one_line(b),
    ensures
        one_line(a + b),
{
    lemma_lacks_concat(a, b, ';');
    lemma_lacks_concat(a, b, '\n');
    lemma_lacks_concat(a, b, ':');
}

pub proof fn lemma_value_one_line(s: Seq<char>)
    requires
        value_ok(s) || plain(s),
    ensures
        one_line(s),
{
    if value_ok(s) {
        lemma_value_lacks(s);
    }
    assert(spec_is_whitespace('\n'));
}

pub proof fn lemma_ty_one_line(t: Type)
    ensures
        one_line(ty_text(t)),
{
    reveal_strlit("i32");
    reveal_strlit("i1");
    reveal_strlit("void");
}

pub proof fn lemma_literals_one_line_a()
    ensures
        one_line(" = "@),
        one_line(", "@),
        one_line(" "@),
        one_line("add i32 "@),
        one_line("sub i32 "@),
        one_line("mul i32 "@),
        one_line("sdiv i32 "@),
        one_line("srem i32 "@),
        one_line("and i1 "@),
        one_line("or i1 "@),
        one_line("xor i1 "@),
{
    reveal_strlit(" = ");
    reveal_strlit(", ");
    reveal_strlit(" ");
    reveal_strlit("add i32 ");
    reveal_strlit("sub i32 ");
    reveal_strlit("mul i32 ");
    reveal_strlit("sdiv i32 ");
    reveal_strlit("srem i32 ");
    reveal_strlit("and i1 ");
    reveal_strlit("or i1 ");
    reveal_strlit("xor i1 ");
    assert(spec_is_whitespace('\n'));
}

pub proof fn lemma_literals_one_line_b()
    ensures
        one_line(" = icmp "@),
        one_line("call "@),
        one_line(" @"@),
        one_line("("@),
        one_line(")"@),
        one_line(" = alloca "@),
        one_line("store "@),
        one_line("* "@),
        one_line(" = load "@),
        one_line(" = phi "@),
{
    reveal_strlit(" = icmp ");
    reveal_strlit("call ");
    reveal_strlit(" @");
    reveal_strlit("(");
    reveal_strlit(")");
    reveal_strlit(" = alloca ");
    reveal_strlit("store ");
    reveal_strlit("* ");
    reveal_strlit(" = load ");
    reveal_strlit(" = phi ");
    assert(spec_is_whitespace('\n'));
}

pub proof fn lemma_literals_one_line_c()
    ensures
        one_line("[ "@),
        one_line(", %"@),
        one_line(" ]"@),
        one_line("ret i32 "@),
        one_line("br label %"@),
        one_line("br i1 "@),
        one_line(", label %"@),
{
    reveal_strlit("[ ");
    reveal_strlit(", %");
    reveal_strlit(" ]");
    reveal_strlit("ret i32 ");
    reveal_strlit("br label %");
    reveal_strlit("br i1 ");
    reveal_strlit(", label %");
    assert(spec_is_whitespace('\n'));
}

proof fn lemma_args_one_line(xs: Seq<(Type, Seq<char>)>)
    requires
        forall|i: int| 0 <= i < xs.len() ==> value_ok(#[trigger] xs[i].1),
    ensures
        one_line(cir::args_text(xs)),
    decreases xs.len(),
{
    lemma_literals_one_line_a();
    if xs.len() > 0 {
        assert(value_ok(xs[xs.len() - 1].1));
        lemma_ty_one_line(xs.last().0);
        lemma_value_one_line(xs.last().1);
        lemma_one_line_concat(ty_text(xs.last().0), " "@);
        lemma_one_line_concat(ty_text(xs.last().0) + " "@, xs.last().1);
        if xs.len() > 1 {
            let init = xs.drop_last();
            assert forall|i: int| 0 <= i < init.len() implies value_ok(#[trigger] init[i].1) by {
                assert(init[i] == xs[i]);
            }
            lemma_args_one_line(init);
            lemma_one_line_concat(cir::args_text(init), ", "@);
            lemma_one_line_concat(cir::args_text(init) + ", "@, typed_arg_text(xs.last()));
        }
    } else {
        assert(one_line(Seq::<char>::empty()));
    }
}

proof fn lemma_incomings_one_line(xs: Seq<(Seq<char>, Seq<char>)>)
    requires
        forall|i: int| 0 <= i < xs.len() ==> value_ok(#[trigger] xs[i].0) && plain(xs[i].1),
    ensures
        one_line(incomings_text(xs)),
    decreases xs.len(),
{
    lemma_literals_one_line_a();
    lemma_literals_one_line_c();
    if xs.len() > 0 {
        let x = xs.last();
        assert(value_ok(xs[xs.len() - 1].0) && plain(xs[xs.len() - 1].1));
        lemma_value_one_line(x.0);
        lemma_value_one_line(x.1);
        lemma_one_line_concat("[ "@, x.0);
        lemma_one_line_concat("[ "@ + x.0, ", %"@);
        lemma_one_line_concat("[ "@ + x.0 + ", %"@, x.1);
        lemma_one_line_concat("[ "@ + x.0 + ", %"@ + x.1, " ]"@);
        if xs.len() > 1 {
            let init = xs.drop_last();
            assert forall|i: int| 0 <= i < init.len() implies value_ok(#[trigger] init[i].0) && plain(init[i].1) by {
                assert(init[i] == xs[i]);
            }
            lemma_incomings_one_line(init);
            lemma_one_line_concat(incomings_text(init), ", "@);
            lemma_one_line_concat(incomings_text(init) + ", "@, incoming_text(x));
        }
    } else {
        assert(one_line(Seq::<char>::empty()));
    }
}

proof fn lemma_binop_text_shape(dest: Seq<char>, op: Seq<char>, lhs: Seq<char>, rhs: Seq<char>)
    requires
        local_ref(dest),
        value_ok(lhs),
        value_ok(rhs),
        one_line(op),
    ensures
        one_line(cir::binop_text(dest, op, lhs, rhs)),
        tight(cir::binop_text(dest, op, lhs, rhs)),
{
    lemma_literals_one_line_a();
    lemma_value_one_line(dest);
    lemma_value_one_line(lhs);
    lemma_value_one_line(rhs);
    lemma_value_lacks(dest);
    lemma_value_lacks(rhs);
    lemma_one_line_concat(dest, " = "@);
    lemma_one_line_concat(dest + " = "@, op);
    lemma_one_line_concat(dest + " = "@ + op, lhs);
    lemma_one_line_concat(dest + " = "@ + op + lhs, ", "@);
    lemma_one_line_concat(dest + " = "@ + op + lhs + ", "@, rhs);
    let t = cir::binop_text(dest, op, lhs, rhs);
    assert(t[0] == dest[0]);
    assert(t.last() == rhs.last());
}

proof fn lemma_icmp_shape(dest: Seq<char>, pred: Seq<char>, ty: Type, lhs: Seq<char>, rhs: Seq<char>)
    requires
        instr_ok(cir::InstrV::ICmp { dest, pred, ty, lhs, rhs }),
    ensures
        one_line(cir::instr_text(cir::InstrV::ICmp { dest, pred, ty, lhs, rhs })),
        tight(cir::instr_text(cir::InstrV::ICmp { dest, pred, ty, lhs, rhs })),
{
    lemma_literals_one_line_a();
    lemma_literals_one_line_b();
    lemma_value_one_line(dest);
    lemma_value_one_line(pred);
    lemma_ty_one_line(ty);
    lemma_value_one_line(lhs);
    lemma_value_one_line(rhs);
    lemma_value_lacks(dest);
    lemma_value_lacks(rhs);
    lemma_one_line_concat(dest, " = icmp "@);
    lemma_one_line_concat(dest + " = icmp "@, pred);
    lemma_one_line_concat(dest + " = icmp "@ + pred, " "@);
    lemma_one_line_concat(dest + " = icmp "@ + pred + " "@, ty_text(ty));
    lemma_one_line_concat(dest + " = icmp "@ + pred + " "@ + ty_text(ty), " "@);
    lemma_one_line_concat(dest + " = icmp "@ + pred + " "@ + ty_text(ty) + " "@, lhs);
    lemma_one_line_concat(dest + " = icmp "@ + pred + " "@ + ty_text(ty) + " "@ + lhs, ", "@);
    lemma_one_line_concat(dest + " = icmp "@ + pred + " "@ + ty_text(ty) + " "@ + lhs + ", "@, rhs);
    let t = cir::instr_text(cir::InstrV::ICmp { dest, pred, ty, lhs, rhs });
    assert(t =~= dest + " = icmp "@ + pred + " "@ + ty_text(ty) + " "@ + lhs + ", "@ + rhs);
    assert(t[0] == dest[0]);
    assert(t.last() == rhs.last());
}

proof fn lemma_call_shape(dest: Option<Seq<char>>, ret_ty: Type, func: Seq<char>, args: Seq<(Type, Seq<char>)>)
    requires
        instr_ok(cir::InstrV::Call { dest, ret_ty, func, args }),
    ensures
        one_line(cir::instr_text(cir::InstrV::Call { dest, ret_ty, func, args })),
        tight(cir::instr_text(cir::InstrV::Call { dest, ret_ty, func, args })),
{
    assert(cir::InstrV::Call { dest, ret_ty, func, args }->Call_args == args);
    lemma_args_one_line(args);
    lemma_literals_one_line_a();
    lemma_literals_one_line_b();
    reveal_strlit(")");
    lemma_value_one_line(dest->Some_0);
    lemma_ty_one_line(ret_ty);
    lemma_value_one_line(func);
    lemma_value_lacks(dest->Some_0);
    lemma_one_line_concat(dest->Some_0, " = "@);
    lemma_one_line_concat(dest->Some_0 + " = "@, "call "@);
    lemma_one_line_concat(dest->Some_0 + " = "@ + "call "@, ty_text(ret_ty));
    lemma_one_line_concat(dest->Some_0 + " = "@ + "call "@ + ty_text(ret_ty), " @"@);
    lemma_one_line_concat(dest->Some_0 + " = "@ + "call "@ + ty_text(ret_ty) + " @"@, func);
    lemma_one_line_concat(dest->Some_0 + " = "@ + "call "@ + ty_text(ret_ty) + " @"@ + func, "("@);
    lemma_one_line_concat(dest->Some_0 + " = "@ + "call "@ + ty_text(ret_ty) + " @"@ + func + "("@, cir::args_text(args));
    lemma_one_line_concat(dest->Some_0 + " = "@ + "call "@ + ty_text(ret_ty) + " @"@ + func + "("@ + cir::args_text(args), ")"@);
    let t = cir::instr_text(cir::InstrV::Call { dest, ret_ty, func, args });
    assert(t =~= dest->Some_0 + " = "@ + "call "@ + ty_text(ret_ty) + " @"@ + func + "("@ + cir::args_text(args) + ")"@);
    assert(t[0] == dest->Some_0[0]);
    assert(t.last() == ')');
}

proof fn lemma_alloca_shape(dest: Seq<char>, ty: Type)
    requires
        instr_ok(cir::InstrV::Alloca { dest, ty }),
    ensures
        one_line(cir::instr_text(cir::InstrV::Alloca { dest, ty })),
        tight(cir::instr_text(cir::InstrV::Alloca { dest, ty })),
{
    lemma_literals_one_line_a();
    lemma_literals_one_line_b();
    lemma_value_one_line(dest);
    lemma_ty_one_line(ty);
    lemma_value_lacks(dest);
    lemma_ty_text_solid(ty);
    lemma_one_line_concat(dest, " = alloca "@);
    lemma_one_line_concat(dest + " = alloca "@, ty_text(ty));
    let t = cir::instr_text(cir::InstrV::Alloca { dest, ty });
    assert(t =~= dest + " = alloca "@ + ty_text(ty));
    assert(t[0] == dest[0]);
    assert(t.last() == ty_text(ty).last());
}

proof fn lemma_store_shape(ty: Type, value: Seq<char>, ptr: Seq<char>)
    requires
        instr_ok(cir::InstrV::Store { ty, value, ptr }),
    ensures
        one_line(cir::instr_text(cir::InstrV::Store { ty, value, ptr })),
        tight(cir::instr_text(cir::InstrV::Store { ty, value, ptr })),
{
    lemma_literals_one_line_a();
    lemma_literals_one_line_b();
    reveal_strlit("store ");
    lemma_ty_one_line(ty);
    lemma_value_one_line(value);
    lemma_value_one_line(ptr);
    lemma_value_lacks(ptr);
    lemma_one_line_concat("store "@, ty_text(ty));
    lemma_one_line_concat("store "@ + ty_text(ty), " "@);
    lemma_one_line_concat("store "@ + ty_text(ty) + " "@, value);
    lemma_one_line_concat("store "@ + ty_text(ty) + " "@ + value, ", "@);
    lemma_one_line_concat("store "@ + ty_text(ty) + " "@ + value + ", "@, ty_text(ty));
    lemma_one_line_concat("store "@ + ty_text(ty) + " "@ + value + ", "@ + ty_text(ty), "* "@);
    lemma_one_line_concat("store "@ + ty_text(ty) + " "@ + value + ", "@ + ty_text(ty) + "* "@, ptr);
    let t = cir::instr_text(cir::InstrV::Store { ty, value, ptr });
    assert(t =~= "store "@ + ty_text(ty) + " "@ + value + ", "@ + ty_text(ty) + "* "@ + ptr);
    assert(t[0] == 's');
    assert(t.last() == ptr.last());
}

proof fn lemma_load_shape(dest: Seq<char>, ty: Type, ptr: Seq<char>)
    requires
        instr_ok(cir::InstrV::Load { dest, ty, ptr }),
    ensures
        one_line(cir::instr_text(cir::InstrV::Load { dest, ty, ptr })),
        tight(cir::instr_text(cir::InstrV::Load { dest, ty, ptr })),
{
    lemma_literals_one_line_a();
    lemma_literals_one_line_b();
    lemma_value_one_line(dest);
    lemma_ty_one_line(ty);
    lemma_value_one_line(ptr);
    lemma_value_lacks(dest);
    lemma_value_lacks(ptr);
    lemma_one_line_concat(dest, " = load "@);
    lemma_one_line_concat(dest + " = load "@, ty_text(ty));
    lemma_one_line_concat(dest + " = load "@ + ty_text(ty), ", "@);
    lemma_one_line_concat(dest + " = load "@ + ty_text(ty) + ", "@, ty_text(ty));
    lemma_one_line_concat(dest + " = load "@ + ty_text(ty) + ", "@ + ty_text(ty), "* "@);
    lemma_one_line_concat(dest + " = load "@ + ty_text(ty) + ", "@ + ty_text(ty) + "* "@, ptr);
    let t = cir::instr_text(cir::InstrV::Load { dest, ty, ptr });
    assert(t =~= dest + " = load "@ + ty_text(ty) + ", "@ + ty_text(ty) + "* "@ + ptr);
    assert(t[0] == dest[0]);
    assert(t.last() == ptr.last());
}

proof fn lemma_phi_shape(dest: Seq<char>, ty: Type, incomings: Seq<(Seq<char>, Seq<char>)>)
    requires
        instr_ok(cir::InstrV::Phi { dest, ty, incomings }),
    ensures
        one_line(cir::instr_text(cir::InstrV::Phi { dest, ty, incomings })),
        tight(cir::instr_text(cir::InstrV::Phi { dest, ty, incomings })),
{
    assert(cir::InstrV::Phi { dest, ty, incomings }->Phi_incomings == incomings);
    lemma_incomings_one_line(incomings);
    lemma_literals_one_line_a();
    lemma_literals_one_line_b();
    lemma_value_one_line(dest);
    lemma_ty_one_line(ty);
    lemma_value_lacks(dest);
    lemma_incomings_tight(incomings);
    lemma_one_line_concat(dest, " = phi "@);
    lemma_one_line_concat(dest + " = phi "@, ty_text(ty));
    lemma_one_line_concat(dest + " = phi "@ + ty_text(ty), " "@);
    lemma_one_line_concat(dest + " = phi "@ + ty_text(ty) + " "@, incomings_text(incomings));
    let t = cir::instr_text(cir::InstrV::Phi { dest, ty, incomings });
    assert(t =~= dest + " = phi "@ + ty_text(ty) + " "@ + incomings_text(incomings));
    assert(t[0] == dest[0]);
    assert(t.last() == incomings_text(incomings).last());
}

/// The line of a compiled instruction fits on one line and is tight.
pub proof fn lemma_instr_line_shape(i: cir::InstrV)
    requires
        instr_ok(i),
    ensures
        one_line(cir::instr_text(i)),
        tight(cir::instr_text(i)),
{
    lemma_literals_one_line_a();
    match i {
        cir::InstrV::Add { dest, lhs, rhs } => {
            reveal_strlit("add i32 ");
            lemma_binop_text_shape(dest, "add i32 "@, lhs, rhs);
        },
        cir::InstrV::Sub { dest, lhs, rhs } => {
            reveal_strlit("sub i32 ");
            lemma_binop_text_shape(dest, "sub i32 "@, lhs, rhs);
        },
        cir::InstrV::Mul { dest, lhs, rhs } => {
            reveal_strlit("mul i32 ");
            lemma_binop_text_shape(dest, "mul i32 "@, lhs, rhs);
        },
        cir::InstrV::SDiv { dest, lhs, rhs } => {
            reveal_strlit("sdiv i32 ");
            lemma_binop_text_shape(dest, "sdiv i32 "@, lhs, rhs);
        },
        cir::InstrV::SRem { dest, lhs, rhs } => {
            reveal_strlit("srem i32 ");
            lemma_binop_text_shape(dest, "srem i32 "@, lhs, rhs);
        },
        cir::InstrV::And { dest, lhs, rhs } => {
            reveal_strlit("and i1 ");
            lemma_binop_text_shape(dest, "and i1 "@, lhs, rhs);
        },
        cir::InstrV::Or { dest, lhs, rhs } => {
            reveal_strlit("or i1 ");
            lemma_binop_text_shape(dest, "or i1 "@, lhs, rhs);
        },
        cir::InstrV::Xor { dest, lhs, rhs } => {
            reveal_strlit("xor i1 ");
            lemma_binop_text_shape(dest, "xor i1 "@, lhs, rhs);
        },
        cir::InstrV::ICmp { dest, pred, ty, lhs, rhs } => lemma_icmp_shape(dest, pred, ty, lhs, rhs),
        cir::InstrV::Call { dest, ret_ty, func, args } => lemma_call_shape(dest, ret_ty, func, args),
        cir::InstrV::Alloca { dest, ty } => lemma_alloca_shape(dest, ty),
        cir::InstrV::Store { ty, value, ptr } => lemma_store_shape(ty, value, ptr),
        cir::InstrV::Load { dest, ty, ptr } => lemma_load_shape(dest, ty, ptr),
        cir::InstrV::Phi { dest, ty, incomings } => lemma_phi_shape(dest, ty, incomings),
    }
}

/// The line of a compiled terminator fits on one line and is tight.
pub proof fn lemma_term_line_shape(t: cir::TerminatorV)
    requires
        term_ok(t),
    ensures
        one_line(cir::term_text(t)),
        tight(cir::term_text(t)),
        cir::term_text(t)[0] == 'r' || cir::term_text(t)[0] == 'b',
{
    lemma_literals_one_line_a();
    lemma_literals_one_line_c();
    reveal_strlit("ret i32 ");
    reveal_strlit("br label %");
    reveal_strlit("br i1 ");
    let x = cir::term_text(t);
    match t {
        cir::TerminatorV::Ret { value } => {
            lemma_value_one_line(value);
            lemma_value_lacks(value);
            lemma_one_line_concat("ret i32 "@, value);
            assert(x[0] == 'r');
            assert(x.last() == value.last());
        },
        cir::TerminatorV::Br { dest } => {
            lemma_value_one_line(dest);
            lemma_plain_lacks(dest);
            lemma_one_line_concat("br label %"@, dest);
            assert(x[0] == 'b');
            assert(x.last() == dest.last());
        },
        cir::TerminatorV::CondBr { cond, then_dest, else_dest } => {
            lemma_value_one_line(cond);
            lemma_value_one_line(then_dest);
            lemma_value_one_line(else_dest);
            lemma_plain_lacks(else_dest);
            lemma_one_line_concat("br i1 "@, cond);
            lemma_one_line_concat("br i1 "@ + cond, ", label %"@);
            lemma_one_line_concat("br i1 "@ + cond + ", label %"@, then_dest);
            lemma_one_line_concat("br i1 "@ + cond + ", label %"@ + then_dest, ", label %"@);
            lemma_one_line_concat("br i1 "@ + cond + ", label %"@ + then_dest + ", label %"@, else_dest);
            assert(x[0] == 'b');
            assert(x.last() == else_dest.last());
        },
    }
}

/// The lines of two texts, the first empty or ending in a line break.
pub proof fn lemma_lines_concat(a: Seq<char>, b: Seq<char>)
    requires
        a.len() == 0 || a.last() == '\n',
    ensures
        lines(a + b) == lines(a) + lines(b),
    decreases a.len(),
{
    if a.len() == 0 {
        assert(a + b =~= b);
        assert(lines(a) =~= Seq::<Seq<char>>::empty());
        assert(Seq::<Seq<char>>::empty() + lines(b) =~= lines(b));
    } else {
        let s = a + b;
        lemma_find_bounds(a, '\n');
        lemma_find_bounds(s, '\n');
        match find(a, '\n') {
            None => {
                assert(a[a.len() - 1] == '\n');
                assert(false);
            },
            Some(i) => {
                assert forall|k: int| 0 <= k < i implies #[trigger] s[k] != '\n' by {
                    assert(s[k] == a[k]);
                }
                assert(s[i] == a[i]);
                lemma_find(s, '\n', i);
                assert(s.take(i) =~= a.take(i));
                let rest = a.skip(i + 1);
                assert(s.skip(i + 1) =~= rest + b);
                if rest.len() > 0 {
                    assert(rest.last() == a.last());
                }
                lemma_lines_concat(rest, b);
                let l = a.take(i);
                let l2 = if l.len() > 0 && l.last() == '\r' { l.drop_last() } else { l };
                assert(lines(a) == seq![l2] + lines(rest));
                assert(lines(s) == seq![l2] + lines(rest + b));
                assert(seq![l2] + (lines(rest) + lines(b)) =~= seq![l2] + lines(rest) + lines(b));
            },
        }
    }
}

/// One line and its line break.
pub proof fn lemma_lines_one(t: Seq<char>)
    requires
        lacks(t, '\n'),
        t.len() == 0 || t.last() != '\r',
    ensures
        lines(t + seq!['\n']) == seq![t],
{
    let s = t + seq!['\n'];
    assert forall|k: int| 0 <= k < t.len() implies #[trigger] s[k] != '\n' by {
        assert(s[k] == t[k]);
    }
    lemma_find(s, '\n', t.len() as int);
    assert(s.take(t.len() as int) =~= t);
    assert(s.skip(t.len() + 1 as int) =~= Seq::<char>::empty());
    assert(lines(Seq::<char>::empty()) =~= Seq::<Seq<char>>::empty());
    assert(seq![t] + Seq::<Seq<char>>::empty() =~= seq![t]);
}

} // verus!
