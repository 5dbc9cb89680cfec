//! The first line of a compiled function read back as its signature.
use vstd::prelude::*;
use crate::compiler::ast::Type;
use crate::compiler::ir as cir;
use crate::vm::chars::{trim, find, split, starts_with, lemma_find, lemma_trim_start_matches};
use crate::vm::ir as vir;
use crate::vm::reader::{IrErr, spec_parse_type, spec_params, spec_parse_signature};
use crate::readback::{
    plain, lacks, tight, solid, join, spaced, lemma_plain_lacks, lemma_trim_tight, lemma_trim_pads,
    lemma_trim_lead_space, lemma_words, lemma_ty_text_solid, lemma_split_join, lemma_drop_prefix_concat,
};

verus! {

/// The machine type of a source type.
pub open spec fn tr_type(t: Type) -> vir::Type {
    match t {
        Type::I32 => vir::Type::I32,
        Type::Bool => vir::Type::I1,
        Type::Unit => vir::Type::Void,
    }
}

/// The parameters as the machine reads them.
pub open spec fn tr_params(ps: Seq<cir::ParamV>) -> Seq<vir::ParamV> {
    ps.map_values(|p: cir::ParamV| vir::ParamV { name: p.name, ty: tr_type(p.ty) })
}

pub proof fn lemma_type_reads_back(t: Type)
    ensures
        spec_parse_type(cir::ty_text(t)) == Ok::<vir::Type, IrErr>(tr_type(t)),
{
    reveal_strlit("i32");
    reveal_strlit("i1");
    reveal_strlit("i64");
    reveal_strlit("void");
    match t {
        Type::I32 => {
            assert(cir::ty_text(t) != "i1"@) by {
                assert(cir::ty_text(t).len() != "i1"@.len());
            }
        },
        Type::Bool => {
            assert(cir::ty_text(t) != "i32"@) by {
                assert(cir::ty_text(t).len() != "i32"@.len());
            }
        },
        Type::Unit => {
            assert(cir::ty_text(t) != "i1"@) by {
                assert(cir::ty_text(t).len() != "i1"@.len());
            }
            assert(cir::ty_text(t)[0] != "i32"@[0]);
            assert(cir::ty_text(t)[0] != "i64"@[0]);
        },
    }
}

/// The parameter list that the compiler writes is the join of its parameters.
pub proof fn lemma_params_text_join(xs: Seq<cir::ParamV>)
    ensures
        cir::params_text(xs) == join(xs.map_values(|p: cir::ParamV| cir::param_text(p))),
    decreases xs.len(),
{
    let ps = xs.map_values(|p: cir::ParamV| cir::param_text(p));
    if xs.len() > 1 {
        lemma_params_text_join(xs.drop_last());
        assert(ps.drop_last() =~= xs.drop_last().map_values(|p: cir::ParamV| cir::param_text(p)));
    }
}

/// Reading parameters that each trim to `type %name`.
proof fn lemma_params_read_back(qs: Seq<Seq<char>>, xs: Seq<cir::ParamV>)
    requires
        qs.len() == xs.len(),
        forall|i: int| 0 <= i < qs.len() ==> trim(#[trigger] qs[i]) == cir::param_text(xs[i]),
        forall|i: int| 0 <= i < qs.len() ==> plain(#[trigger] xs[i].name),
    ensures
        spec_params(qs) == Ok::<Seq<vir::ParamV>, IrErr>(tr_params(xs)),
    decreases qs.len(),
{
    reveal_strlit(" %");
    reveal_strlit(" ");
    reveal_strlit("%");
    if qs.len() > 0 {
        let x = xs[0];
        assert(plain(xs[0].name));
        assert(trim(qs[0]) == cir::param_text(xs[0]));
        lemma_ty_text_solid(x.ty);
        lemma_plain_lacks(x.name);
        let n = "%"@ + x.name;
        assert(solid(n)) by {
            assert forall|k: int| 0 <= k < n.len() implies !crate::text::spec_is_whitespace(#[trigger] n[k]) by {
                if k > 0 {
                    assert(n[k] == x.name[k - 1]);
                }
            }
        }
        assert(cir::param_text(x) =~= cir::ty_text(x.ty) + " "@ + n);
        lemma_words(cir::ty_text(x.ty), n);
        assert(n[1] == x.name[0]);
        lemma_trim_start_matches(n, '%', 1);
        assert(n.skip(1) =~= x.name);
        lemma_type_reads_back(x.ty);
        let q2 = qs.drop_first();
        let x2 = xs.drop_first();
        assert forall|i: int| 0 <= i < q2.len() implies trim(#[trigger] q2[i]) == cir::param_text(x2[i]) by {
            assert(q2[i] == qs[i + 1]);
            assert(x2[i] == xs[i + 1]);
        }
        assert forall|i: int| 0 <= i < q2.len() implies plain(#[trigger] x2[i].name) by {
            assert(x2[i] == xs[i + 1]);
        }
        lemma_params_read_back(q2, x2);
        assert(tr_params(xs) =~= seq![vir::ParamV { name: x.name, ty: tr_type(x.ty) }] + tr_params(x2));
    } else {
        assert(tr_params(xs) =~= Seq::<vir::ParamV>::empty());
    }
}

/// A parameter's text is tight and holds no `,` or `)`.
proof fn lemma_param_text_shape(p: cir::ParamV)
    requires
        plain(p.name),
    ensures
        tight(cir::param_text(p)),
        lacks(cir::param_text(p), ','),
        lacks(cir::param_text(p), ')'),
        lacks(cir::param_text(p), '\n'),
        lacks(cir::param_text(p), ';'),
{
    reveal_strlit(" %");
    reveal_strlit("i32");
    reveal_strlit("i1");
    reveal_strlit("void");
    let t = cir::param_text(p);
    let w = cir::ty_text(p.ty);
    lemma_ty_text_solid(p.ty);
    lemma_plain_lacks(p.name);
    assert(t[0] == w[0]);
    assert(t.last() == p.name.last());
    assert forall|k: int| 0 <= k < t.len() implies #[trigger] t[k] != ',' && t[k] != ')' && t[k] != '\n' && t[k] != ';' by {
        if k < w.len() {
            assert(t[k] == w[k]);
        } else if k >= w.len() + 2 {
            assert(t[k] == p.name[k - w.len() - 2]);
        }
    }
}

/// The parameter list of a definition reads back.
proof fn lemma_param_list(xs: Seq<cir::ParamV>)
    requires
        forall|i: int| 0 <= i < xs.len() ==> plain(#[trigger] xs[i].name),
    ensures
        lacks(cir::params_text(xs), ')'),
        lacks(cir::params_text(xs), '\n'),
        lacks(cir::params_text(xs), ';'),
        xs.len() == 0 ==> cir::params_text(xs) == Seq::<char>::empty(),
        xs.len() > 0 ==> tight(cir::params_text(xs))
            && spec_params(split(cir::params_text(xs), ',')) == Ok::<Seq<vir::ParamV>, IrErr>(tr_params(xs)),
    decreases xs.len(),
{
    reveal_strlit(", ");
    reveal_strlit(" ");
    let ps = xs.map_values(|p: cir::ParamV| cir::param_text(p));
    lemma_params_text_join(xs);
    if xs.len() > 0 {
        let init = xs.drop_last();
        assert forall|i: int| 0 <= i < init.len() implies plain(#[trigger] init[i].name) by {
            assert(init[i] == xs[i]);
        }
        lemma_param_list(init);
        assert(plain(xs[xs.len() - 1].name));
        lemma_param_text_shape(xs.last());
        let t = cir::params_text(xs);
        let last = cir::param_text(xs.last());
        if xs.len() > 1 {
            let a = cir::params_text(init);
            assert(t == a + ", "@ + last);
            assert forall|k: int| 0 <= k < t.len() implies #[trigger] t[k] != ')' && t[k] != '\n' && t[k] != ';' by {
                if k < a.len() {
                    assert(t[k] == a[k]);
                } else if k >= a.len() + 2 {
                    assert(t[k] == last[k - a.len() - 2]);
                }
            }
            assert(t[0] == a[0]);
            assert(t.last() == last.last());
        }
        assert forall|i: int| 0 <= i < ps.len() implies lacks(#[trigger] ps[i], ',') by {
            assert(plain(xs[i].name));
            lemma_param_text_shape(xs[i]);
        }
        lemma_split_join(ps);
        let qs = spaced(ps);
        assert forall|i: int| 0 <= i < qs.len() implies trim(#[trigger] qs[i]) == cir::param_text(xs[i]) by {
            assert(plain(xs[i].name));
            lemma_param_text_shape(xs[i]);
            if i == 0 {
                lemma_trim_tight(ps[i]);
            } else {
                lemma_trim_lead_space(ps[i]);
            }
        }
        lemma_params_read_back(qs, xs);
    } else {
        assert(cir::params_text(xs) =~= Seq::<char>::empty());
    }
}

/// The first line of a compiled function.
pub open spec fn sig_line(f: cir::FunctionV) -> Seq<char> {
    "define "@ + cir::ty_text(f.return_type) + " @"@ + f.name + "("@ + cir::params_text(f.params) + ") {"@
}

/// The first line of a compiled function is one tight line ending in `{`.
pub proof fn lemma_sig_shape(f: cir::FunctionV)
    requires
        plain(f.name),
        forall|i: int| 0 <= i < f.params.len() ==> plain(#[trigger] f.params[i].name),
    ensures
        starts_with(sig_line(f), "define "@),
        lacks(sig_line(f), '\n'),
        lacks(sig_line(f), ';'),
        tight(sig_line(f)),
        sig_line(f).last() == '{',
{
    reveal_strlit("define ");
    reveal_strlit(" @");
    reveal_strlit("(");
    reveal_strlit(") {");
    let w = cir::ty_text(f.return_type);
    let pt = cir::params_text(f.params);
    let line = sig_line(f);
    lemma_drop_prefix_concat("define "@, w + " @"@ + f.name + "("@ + pt + ") {"@);
    assert(line =~= "define "@ + (w + " @"@ + f.name + "("@ + pt + ") {"@));
    lemma_ty_text_solid(f.return_type);
    lemma_plain_lacks(f.name);
    lemma_param_list(f.params);
    lemma_ty_lacks(f.return_type);
    assert(line[0] == 'd');
    assert(line.last() == '{');
    assert forall|k: int| 0 <= k < line.len() implies #[trigger] line[k] != '\n' && line[k] != ';' by {
        if 7 <= k < 7 + w.len() {
            assert(line[k] == w[k - 7]);
        } else if 9 + w.len() <= k < 9 + w.len() + f.name.len() {
            assert(line[k] == f.name[k - 9 - w.len()]);
        } else if 10 + w.len() + f.name.len() <= k < 10 + w.len() + f.name.len() + pt.len() {
            assert(line[k] == pt[k - 10 - w.len() - f.name.len()]);
        }
    }
}

proof fn lemma_ty_lacks(t: Type)
    ensures
        lacks(cir::ty_text(t), '\n'),
        lacks(cir::ty_text(t), ';'),
        lacks(cir::ty_text(t), '@'),
{
    reveal_strlit("i32");
    reveal_strlit("i1");
    reveal_strlit("void");
}

proof fn lemma_sig_rest(w: Seq<char>, after_at: Seq<char>)
    requires
        solid(w),
        lacks(w, '@'),
    ensures
        find(w + " @"@ + after_at, '@') == Some(w.len() + 1 as int),
        trim((w + " @"@ + after_at).take(w.len() + 1 as int)) == w,
        (w + " @"@ + after_at).skip(w.len() + 2 as int) == after_at,
{
    reveal_strlit(" @");
    reveal_strlit(" ");
    let rest = w + " @"@ + after_at;
    let wl: int = w.len() as int;
    assert forall|k: int| 0 <= k < wl implies #[trigger] rest[k] != '@' by {
        assert(rest[k] == w[k]);
    }
    assert(rest[wl] == ' ');
    assert(rest[wl + 1] == '@');
    lemma_find(rest, '@', wl + 1);
    assert(rest.take(wl + 1) =~= w + " "@);
    lemma_trim_pads(seq![], w, " "@);
    assert(Seq::<char>::empty() + w + " "@ =~= w + " "@);
    assert(rest.skip(wl + 2) =~= after_at);
}

proof fn lemma_sig_after_at(name: Seq<char>, pt: Seq<char>)
    requires
        plain(name),
        lacks(pt, ')'),
    ensures
        find(name + "("@ + pt + ") {"@, '(') == Some(name.len() as int),
        find(name + "("@ + pt + ") {"@, ')') == Some(name.len() + 1 + pt.len() as int),
        trim((name + "("@ + pt + ") {"@).take(name.len() as int)) == name,
        (name + "("@ + pt + ") {"@).subrange(name.len() + 1 as int, name.len() + 1 + pt.len() as int) == pt,
{
    reveal_strlit("(");
    reveal_strlit(") {");
    let after_at = name + "("@ + pt + ") {"@;
    lemma_plain_lacks(name);
    assert forall|k: int| 0 <= k < name.len() implies #[trigger] after_at[k] != '(' && after_at[k] != ')' by {
        assert(after_at[k] == name[k]);
    }
    let lp = name.len() as int;
    assert(after_at[lp] == '(');
    lemma_find(after_at, '(', lp);
    assert forall|k: int| lp < k < lp + 1 + pt.len() implies #[trigger] after_at[k] != ')' by {
        assert(after_at[k] == pt[k - lp - 1]);
    }
    assert(after_at[lp] != ')');
    let rp = lp + 1 + pt.len();
    assert(after_at[rp] == ')');
    lemma_find(after_at, ')', rp);
    assert(after_at.take(lp) =~= name);
    lemma_trim_tight(name);
    assert(after_at.subrange(lp + 1, rp) =~= pt);
}

/// The first line of a compiled function reads back as its signature.
#[verifier::spinoff_prover]
#[verifier::rlimit(100)]
pub proof fn lemma_signature_reads_back(f: cir::FunctionV)
    requires
        plain(f.name),
        forall|i: int| 0 <= i < f.params.len() ==> plain(#[trigger] f.params[i].name),
    ensures
        spec_parse_signature(sig_line(f))
            == Ok::<(Seq<char>, Seq<vir::ParamV>, vir::Type), IrErr>((f.name, tr_params(f.params), tr_type(f.return_type))),
{
    reveal_strlit("define ");
    let w = cir::ty_text(f.return_type);
    let pt = cir::params_text(f.params);
    let after_at = f.name + "("@ + pt + ") {"@;
    let rest = w + " @"@ + after_at;
    assert(sig_line(f) =~= "define "@ + rest);
    lemma_drop_prefix_concat("define "@, rest);
    lemma_ty_text_solid(f.return_type);
    lemma_ty_lacks(f.return_type);
    lemma_param_list(f.params);
    lemma_sig_rest(w, after_at);
    lemma_sig_after_at(f.name, pt);
    lemma_type_reads_back(f.return_type);
    lemma_trim_tight(pt);
    if f.params.len() == 0 {
        assert(tr_params(f.params) =~= Seq::<vir::ParamV>::empty());
    }
}

} // verus!
