//! The whole text of a compiled module read back: function by function,
//! block by block, line by line.
use vstd::prelude::*;
use crate::compiler::ir as cir;
use crate::vm::chars::{find, lines, starts_with, lemma_find_bounds, lemma_trim_end_matches};
use crate::vm::ir as vir;
use crate::vm::reader::{
    IrErr, clean_line, PendingV, all_blocks, fresh_block, with_current, spec_read_line,
    spec_read_lines, spec_parse_module,
};
use crate::readback::{
    plain, lacks, tight, one_line, instr_ok, term_ok, tr_instr, tr_term, lemma_plain_lacks,
    lemma_trim_tight, lemma_trim_pads, lemma_not_prefix, lemma_lines_concat, lemma_lines_one,
    lemma_instr_line_shape, lemma_term_line_shape, lemma_instr_reads_back, lemma_term_reads_back,
};
use crate::readback::signature::{
    tr_type, tr_params, sig_line, lemma_sig_shape, lemma_signature_reads_back,
};

verus! {

/// A compiled block whose label is plain and whose lines read back.
pub open spec fn block_ok(b: cir::BasicBlockV) -> bool {
    &&& plain(b.name)
    &&& forall|k: int| 0 <= k < b.instrs.len() ==> instr_ok(#[trigger] b.instrs[k])
    &&& term_ok(b.term)
}

/// A compiled function whose names are plain and whose blocks read back.
pub open spec fn function_ok(f: cir::FunctionV) -> bool {
    &&& plain(f.name)
    &&& forall|k: int| 0 <= k < f.params.len() ==> plain(#[trigger] f.params[k].name)
    &&& forall|k: int| 0 <= k < f.blocks.len() ==> block_ok(#[trigger] f.blocks[k])
}

/// The lines of a block's instructions, as the compiler indents them.
pub open spec fn instr_lines(is: Seq<cir::InstrV>) -> Seq<Seq<char>> {
    is.map_values(|i: cir::InstrV| "  "@ + cir::instr_text(i))
}

/// The lines of a block: its label, its instructions, its terminator, a blank line.
pub open spec fn block_lines(b: cir::BasicBlockV) -> Seq<Seq<char>> {
    seq![b.name + ":"@] + instr_lines(b.instrs) + seq!["  "@ + cir::term_text(b.term), Seq::<char>::empty()]
}

pub open spec fn blocks_lines(bs: Seq<cir::BasicBlockV>) -> Seq<Seq<char>>
    decreases bs.len(),
{
    if bs.len() == 0 {
        seq![]
    } else {
        blocks_lines(bs.drop_last()) + block_lines(bs.last())
    }
}

/// The lines of a function: its signature, its blocks, `}` and a blank line.
pub open spec fn function_lines(f: cir::FunctionV) -> Seq<Seq<char>> {
    seq![sig_line(f)] + blocks_lines(f.blocks) + seq!["}"@, Seq::<char>::empty()]
}

pub open spec fn functions_lines(fs: Seq<cir::FunctionV>) -> Seq<Seq<char>>
    decreases fs.len(),
{
    if fs.len() == 0 {
        seq![]
    } else {
        functions_lines(fs.drop_last()) + function_lines(fs.last())
    }
}

/// `t` with a line break after it.
pub open spec fn nl(t: Seq<char>) -> Seq<char> {
    t + seq!['\n']
}

/// An indented instruction or terminator line.
proof fn lemma_indented_line(t: Seq<char>)
    requires
        one_line(t),
        tight(t),
    ensures
        lines(nl("  "@ + t)) == seq!["  "@ + t],
        lacks("  "@ + t, '\n'),
{
    reveal_strlit("  ");
    let u = "  "@ + t;
    assert forall|k: int| 0 <= k < u.len() implies #[trigger] u[k] != '\n' by {
        if k >= 2 {
            assert(u[k] == t[k - 2]);
        }
    }
    assert(u.last() == t.last());
    assert(crate::text::spec_is_whitespace('\r'));
    lemma_lines_one(u);
}

proof fn lemma_instrs_text_lines(is: Seq<cir::InstrV>)
    requires
        forall|k: int| 0 <= k < is.len() ==> instr_ok(#[trigger] is[k]),
    ensures
        lines(cir::instrs_text(is)) == instr_lines(is),
        cir::instrs_text(is).len() == 0 || cir::instrs_text(is).last() == '\n',
    decreases is.len(),
{
    reveal_strlit("  ");
    reveal_strlit("\n");
    if is.len() == 0 {
        assert(lines(Seq::<char>::empty()) =~= Seq::<Seq<char>>::empty());
        assert(instr_lines(is) =~= Seq::<Seq<char>>::empty());
    } else {
        let init = is.drop_last();
        assert forall|k: int| 0 <= k < init.len() implies instr_ok(#[trigger] init[k]) by {
            assert(init[k] == is[k]);
        }
        lemma_instrs_text_lines(init);
        assert(instr_ok(is[is.len() - 1]));
        lemma_instr_line_shape(is.last());
        lemma_indented_line(cir::instr_text(is.last()));
        let a = cir::instrs_text(init);
        let b = nl("  "@ + cir::instr_text(is.last()));
        assert(cir::instrs_text(is) =~= a + b);
        lemma_lines_concat(a, b);
        assert(instr_lines(is) =~= instr_lines(init) + seq!["  "@ + cir::instr_text(is.last())]);
    }
}

proof fn lemma_block_text_lines(b: cir::BasicBlockV)
    requires
        block_ok(b),
    ensures
        lines(cir::block_text(b)) == block_lines(b),
        cir::block_text(b).last() == '\n',
{
    reveal_strlit("  ");
    reveal_strlit("\n");
    reveal_strlit(":\n");
    reveal_strlit(":");
    let label = b.name + ":"@;
    lemma_plain_lacks(b.name);
    assert forall|k: int| 0 <= k < label.len() implies #[trigger] label[k] != '\n' by {
        if k < b.name.len() {
            assert(label[k] == b.name[k]);
        }
    }
    assert(label.last() == ':');
    lemma_lines_one(label);
    lemma_instrs_text_lines(b.instrs);
    lemma_term_line_shape(b.term);
    lemma_indented_line(cir::term_text(b.term));
    let p1 = nl(label);
    let p2 = cir::instrs_text(b.instrs);
    let p3 = nl("  "@ + cir::term_text(b.term));
    let p4 = nl(Seq::<char>::empty());
    lemma_lines_one(Seq::<char>::empty());
    assert(cir::block_text(b) =~= p1 + p2 + p3 + p4);
    lemma_lines_concat(p1, p2);
    assert((p1 + p2).len() == 0 || (p1 + p2).last() == '\n');
    lemma_lines_concat(p1 + p2, p3);
    lemma_lines_concat(p1 + p2 + p3, p4);
    assert(block_lines(b) =~= seq![label] + instr_lines(b.instrs) + seq!["  "@ + cir::term_text(b.term)] + seq![Seq::<char>::empty()]);
}

proof fn lemma_blocks_text_lines(bs: Seq<cir::BasicBlockV>)
    requires
        forall|k: int| 0 <= k < bs.len() ==> block_ok(#[trigger] bs[k]),
    ensures
        lines(cir::blocks_text(bs)) == blocks_lines(bs),
        cir::blocks_text(bs).len() == 0 || cir::blocks_text(bs).last() == '\n',
    decreases bs.len(),
{
    if bs.len() == 0 {
        assert(lines(Seq::<char>::empty()) =~= Seq::<Seq<char>>::empty());
    } else {
        let init = bs.drop_last();
        assert forall|k: int| 0 <= k < init.len() implies block_ok(#[trigger] init[k]) by {
            assert(init[k] == bs[k]);
        }
        lemma_blocks_text_lines(init);
        assert(block_ok(bs[bs.len() - 1]));
        lemma_block_text_lines(bs.last());
        lemma_lines_concat(cir::blocks_text(init), cir::block_text(bs.last()));
    }
}

proof fn lemma_function_text_lines(f: cir::FunctionV)
    requires
        function_ok(f),
    ensures
        lines(cir::function_text(f)) == function_lines(f),
        cir::function_text(f).last() == '\n',
{
    reveal_strlit("\n");
    reveal_strlit(") {\n");
    reveal_strlit(") {");
    reveal_strlit("}\n\n");
    reveal_strlit("}");
    lemma_sig_shape(f);
    let sig = sig_line(f);
    assert(sig.len() == 0 || sig.last() != '\r');
    lemma_lines_one(sig);
    lemma_blocks_text_lines(f.blocks);
    lemma_lines_one("}"@);
    lemma_lines_one(Seq::<char>::empty());
    let p1 = nl(sig);
    let p2 = cir::blocks_text(f.blocks);
    let p3 = nl("}"@);
    let p4 = nl(Seq::<char>::empty());
    assert(cir::function_text(f) =~= p1 + p2 + p3 + p4);
    lemma_lines_concat(p1, p2);
    assert((p1 + p2).len() == 0 || (p1 + p2).last() == '\n');
    lemma_lines_concat(p1 + p2, p3);
    lemma_lines_concat(p1 + p2 + p3, p4);
    assert(function_lines(f) =~= seq![sig] + blocks_lines(f.blocks) + seq!["}"@] + seq![Seq::<char>::empty()]);
}

/// The lines of a compiled module's text.
pub proof fn lemma_module_text_lines(fs: Seq<cir::FunctionV>)
    requires
        forall|k: int| 0 <= k < fs.len() ==> function_ok(#[trigger] fs[k]),
    ensures
        lines(cir::functions_text(fs)) == functions_lines(fs),
        cir::functions_text(fs).len() == 0 || cir::functions_text(fs).last() == '\n',
    decreases fs.len(),
{
    if fs.len() == 0 {
        assert(lines(Seq::<char>::empty()) =~= Seq::<Seq<char>>::empty());
    } else {
        let init = fs.drop_last();
        assert forall|k: int| 0 <= k < init.len() implies function_ok(#[trigger] init[k]) by {
            assert(init[k] == fs[k]);
        }
        lemma_module_text_lines(init);
        assert(function_ok(fs[fs.len() - 1]));
        lemma_function_text_lines(fs.last());
        lemma_lines_concat(cir::functions_text(init), cir::function_text(fs.last()));
    }
}

/// Lines read one by one from a state, without the final check that no
/// function is left open.
pub open spec fn run_lines(ls: Seq<Seq<char>>, st: Option<PendingV>, fs: Seq<vir::FunctionV>)
    -> Result<(Option<PendingV>, Seq<vir::FunctionV>), IrErr>
    decreases ls.len(),
{
    if ls.len() == 0 {
        Ok((st, fs))
    } else {
        match spec_read_line(st, clean_line(ls[0])) {
            Err(e) => Err(e),
            Ok((st2, done)) => run_lines(
                ls.drop_first(),
                st2,
                match done {
                    Some(f) => fs.push(f),
                    None => fs,
                },
            ),
        }
    }
}

proof fn lemma_read_lines_run(ls: Seq<Seq<char>>, st: Option<PendingV>, fs: Seq<vir::FunctionV>)
    ensures
        spec_read_lines(ls, st, fs) == match run_lines(ls, st, fs) {
            Ok((st2, fs2)) => if st2 is None { Ok(fs2) } else { Err(IrErr::UnterminatedFunction) },
            Err(e) => Err(e),
        },
    decreases ls.len(),
{
    if ls.len() > 0 {
        match spec_read_line(st, clean_line(ls[0])) {
            Err(_) => {},
            Ok((st2, done)) => {
                lemma_read_lines_run(ls.drop_first(), st2, match done {
                    Some(f) => fs.push(f),
                    None => fs,
                });
            },
        }
    }
}

proof fn lemma_run_concat(a: Seq<Seq<char>>, b: Seq<Seq<char>>, st: Option<PendingV>, fs: Seq<vir::FunctionV>)
    ensures
        run_lines(a + b, st, fs) == match run_lines(a, st, fs) {
            Ok((st2, fs2)) => run_lines(b, st2, fs2),
            Err(e) => Err(e),
        },
    decreases a.len(),
{
    if a.len() == 0 {
        assert(a + b =~= b);
    } else {
        assert((a + b)[0] == a[0]);
        assert((a + b).drop_first() =~= a.drop_first() + b);
        match spec_read_line(st, clean_line(a[0])) {
            Err(_) => {},
            Ok((st2, done)) => {
                lemma_run_concat(a.drop_first(), b, st2, match done {
                    Some(f) => fs.push(f),
                    None => fs,
                });
            },
        }
    }
}

proof fn lemma_run_one(l: Seq<char>, st: Option<PendingV>, fs: Seq<vir::FunctionV>)
    ensures
        run_lines(seq![l], st, fs) == match spec_read_line(st, clean_line(l)) {
            Err(e) => Err(e),
            Ok((st2, done)) => Ok((st2, match done {
                Some(f) => fs.push(f),
                None => fs,
            })),
        },
{
    reveal_with_fuel(run_lines, 2);
    assert(seq![l].drop_first() =~= Seq::<Seq<char>>::empty());
}

/// A tight line without `;` is its own clean form.
proof fn lemma_clean_tight(t: Seq<char>)
    requires
        lacks(t, ';'),
        t.len() == 0 || tight(t),
    ensures
        clean_line(t) == t,
{
    lemma_find_bounds(t, ';');
    if find(t, ';') is Some {
        assert(false);
    }
    lemma_trim_tight(t);
}

/// An indented line of a tight one-line text cleans to that text.
proof fn lemma_clean_indented(t: Seq<char>)
    requires
        one_line(t),
        tight(t),
    ensures
        clean_line("  "@ + t) == t,
{
    reveal_strlit("  ");
    let u = "  "@ + t;
    assert forall|k: int| 0 <= k < u.len() implies #[trigger] u[k] != ';' by {
        if k >= 2 {
            assert(u[k] == t[k - 2]);
        }
    }
    lemma_find_bounds(u, ';');
    if find(u, ';') is Some {
        assert(false);
    }
    lemma_trim_pads("  "@, t, seq![]);
    assert(u + Seq::<char>::empty() =~= u);
}

/// The machine block that a compiled block's lines denote.
pub open spec fn tr_block(b: cir::BasicBlockV) -> vir::BasicBlockV {
    vir::BasicBlockV {
        name: b.name,
        instrs: b.instrs.map_values(|i: cir::InstrV| tr_instr(i)),
        term: tr_term(b.term),
    }
}

/// The machine function that a compiled function's lines denote.
pub open spec fn tr_function(f: cir::FunctionV) -> vir::FunctionV {
    vir::FunctionV {
        name: f.name,
        params: tr_params(f.params),
        return_type: tr_type(f.return_type),
        blocks: f.blocks.map_values(|b: cir::BasicBlockV| tr_block(b)),
    }
}

/// The block under construction with one more instruction.
pub open spec fn with_instr(b: vir::BasicBlockV, i: vir::InstrV) -> vir::BasicBlockV {
    vir::BasicBlockV { name: b.name, instrs: b.instrs.push(i), term: b.term }
}

proof fn lemma_instr_line_read(q: PendingV, b: vir::BasicBlockV, i: cir::InstrV, fs: Seq<vir::FunctionV>)
    requires
        instr_ok(i),
    ensures
        run_lines(seq!["  "@ + cir::instr_text(i)], Some(with_current(q, b)), fs)
            == Ok::<(Option<PendingV>, Seq<vir::FunctionV>), IrErr>((Some(with_current(q, with_instr(b, tr_instr(i)))), fs)),
{
    reveal_strlit("}");
    reveal_strlit("ret ");
    reveal_strlit("br ");
    reveal_strlit("store ");
    let t = cir::instr_text(i);
    lemma_run_one("  "@ + t, Some(with_current(q, b)), fs);
    lemma_instr_line_shape(i);
    lemma_clean_indented(t);
    lemma_instr_reads_back(i);
    assert(t.len() > 0);
    assert(t[0] == '%' || t[0] == 's');
    if t == "}"@ {
        assert(t[0] == '}');
    }
    assert(t[t.len() - 1] != ':');
    lemma_not_prefix(t, "ret "@, 0);
    lemma_not_prefix(t, "br "@, 0);
    if !(i is Store) {
        lemma_not_prefix(t, "store "@, 0);
    }
}

proof fn lemma_instr_lines_read(q: PendingV, b: vir::BasicBlockV, is: Seq<cir::InstrV>, fs: Seq<vir::FunctionV>)
    requires
        forall|k: int| 0 <= k < is.len() ==> instr_ok(#[trigger] is[k]),
    ensures
        run_lines(instr_lines(is), Some(with_current(q, b)), fs)
            == Ok::<(Option<PendingV>, Seq<vir::FunctionV>), IrErr>((Some(with_current(q, vir::BasicBlockV {
                name: b.name,
                instrs: b.instrs + is.map_values(|i: cir::InstrV| tr_instr(i)),
                term: b.term,
            })), fs)),
    decreases is.len(),
{
    if is.len() == 0 {
        assert(instr_lines(is) =~= Seq::<Seq<char>>::empty());
        assert(b.instrs + is.map_values(|i: cir::InstrV| tr_instr(i)) =~= b.instrs);
    } else {
        let init = is.drop_last();
        assert forall|k: int| 0 <= k < init.len() implies instr_ok(#[trigger] init[k]) by {
            assert(init[k] == is[k]);
        }
        lemma_instr_lines_read(q, b, init, fs);
        assert(instr_lines(is) =~= instr_lines(init) + seq!["  "@ + cir::instr_text(is.last())]);
        lemma_run_concat(instr_lines(init), seq!["  "@ + cir::instr_text(is.last())], Some(with_current(q, b)), fs);
        let b1 = vir::BasicBlockV { name: b.name, instrs: b.instrs + init.map_values(|i: cir::InstrV| tr_instr(i)), term: b.term };
        assert(instr_ok(is[is.len() - 1]));
        lemma_instr_line_read(q, b1, is.last(), fs);
        assert(b1.instrs.push(tr_instr(is.last())) =~= b.instrs + is.map_values(|i: cir::InstrV| tr_instr(i)));
    }
}

/// A block's label line opens a fresh block and closes the previous one.
proof fn lemma_label_read(q: PendingV, name: Seq<char>, fs: Seq<vir::FunctionV>)
    requires
        plain(name),
    ensures
        run_lines(seq![name + ":"@], Some(q), fs) == Ok::<(Option<PendingV>, Seq<vir::FunctionV>), IrErr>((
            Some(PendingV {
                name: q.name,
                params: q.params,
                return_type: q.return_type,
                blocks: all_blocks(q),
                current: Some(fresh_block(name)),
            }),
            fs,
        )),
{
    reveal_strlit(":");
    reveal_strlit("}");
    let label = name + ":"@;
    lemma_plain_lacks(name);
    assert forall|k: int| 0 <= k < label.len() implies #[trigger] label[k] != ';' by {
        if k < name.len() {
            assert(label[k] == name[k]);
        }
    }
    assert(label[0] == name[0]);
    assert(label.last() == ':');
    lemma_clean_tight(label);
    assert(label != "}"@) by {
        assert(label.last() != "}"@.last());
    }
    assert(label.take(name.len() as int) =~= name);
    lemma_trim_end_matches(label, ':', name.len() as int);
    lemma_run_one(label, Some(q), fs);
}

/// A block's terminator line sets the current block's terminator.
proof fn lemma_term_line_read(q: PendingV, b: vir::BasicBlockV, t: cir::TerminatorV, fs: Seq<vir::FunctionV>)
    requires
        term_ok(t),
    ensures
        run_lines(seq!["  "@ + cir::term_text(t)], Some(with_current(q, b)), fs)
            == Ok::<(Option<PendingV>, Seq<vir::FunctionV>), IrErr>((
                Some(with_current(q, vir::BasicBlockV { name: b.name, instrs: b.instrs, term: tr_term(t) })),
                fs,
            )),
{
    reveal_strlit("}");
    let x = cir::term_text(t);
    lemma_term_line_shape(t);
    lemma_clean_indented(x);
    lemma_term_reads_back(t);
    lemma_run_one("  "@ + x, Some(with_current(q, b)), fs);
    if x == "}"@ {
        assert(x[0] == '}');
    }
    assert(x[x.len() - 1] != ':');
}

/// Reading a block's lines closes the previous block and leaves this one current.
#[verifier::spinoff_prover]
#[verifier::rlimit(100)]
proof fn lemma_block_read(q: PendingV, b: cir::BasicBlockV, fs: Seq<vir::FunctionV>)
    requires
        block_ok(b),
    ensures
        run_lines(block_lines(b), Some(q), fs) == Ok::<(Option<PendingV>, Seq<vir::FunctionV>), IrErr>((
            Some(PendingV {
                name: q.name,
                params: q.params,
                return_type: q.return_type,
                blocks: all_blocks(q),
                current: Some(tr_block(b)),
            }),
            fs,
        )),
{
    let q1 = PendingV {
        name: q.name,
        params: q.params,
        return_type: q.return_type,
        blocks: all_blocks(q),
        current: Some(fresh_block(b.name)),
    };
    lemma_label_read(q, b.name, fs);
    let fresh = fresh_block(b.name);
    assert(q1 == with_current(q1, fresh));
    lemma_instr_lines_read(q1, fresh, b.instrs, fs);
    let b2 = vir::BasicBlockV { name: b.name, instrs: fresh.instrs + b.instrs.map_values(|i: cir::InstrV| tr_instr(i)), term: fresh.term };
    lemma_term_line_read(q1, b2, b.term, fs);
    let b3 = vir::BasicBlockV { name: b2.name, instrs: b2.instrs, term: tr_term(b.term) };
    lemma_run_one(Seq::<char>::empty(), Some(with_current(q1, b3)), fs);
    lemma_clean_tight(Seq::<char>::empty());
    assert(b2.instrs =~= b.instrs.map_values(|i: cir::InstrV| tr_instr(i)));
    assert(b3 == tr_block(b));
    let ls1 = seq![b.name + ":"@];
    let ls2 = instr_lines(b.instrs);
    let ls3 = seq!["  "@ + cir::term_text(b.term)];
    let ls4 = seq![Seq::<char>::empty()];
    assert(block_lines(b) =~= ls1 + ls2 + ls3 + ls4);
    lemma_run_concat(ls1 + ls2 + ls3, ls4, Some(q), fs);
    lemma_run_concat(ls1 + ls2, ls3, Some(q), fs);
    lemma_run_concat(ls1, ls2, Some(q), fs);
}

/// The state after the lines of blocks `bs`, read from state `q`.
pub open spec fn after_blocks(q: PendingV, bs: Seq<cir::BasicBlockV>) -> PendingV {
    if bs.len() == 0 {
        q
    } else {
        PendingV {
            name: q.name,
            params: q.params,
            return_type: q.return_type,
            blocks: all_blocks(q) + bs.drop_last().map_values(|b: cir::BasicBlockV| tr_block(b)),
            current: Some(tr_block(bs.last())),
        }
    }
}

proof fn lemma_blocks_read(q: PendingV, bs: Seq<cir::BasicBlockV>, fs: Seq<vir::FunctionV>)
    requires
        forall|k: int| 0 <= k < bs.len() ==> block_ok(#[trigger] bs[k]),
    ensures
        run_lines(blocks_lines(bs), Some(q), fs)
            == Ok::<(Option<PendingV>, Seq<vir::FunctionV>), IrErr>((Some(after_blocks(q, bs)), fs)),
        all_blocks(after_blocks(q, bs)) == all_blocks(q) + bs.map_values(|b: cir::BasicBlockV| tr_block(b)),
        after_blocks(q, bs).name == q.name,
        after_blocks(q, bs).params == q.params,
        after_blocks(q, bs).return_type == q.return_type,
    decreases bs.len(),
{
    if bs.len() == 0 {
        assert(blocks_lines(bs) =~= Seq::<Seq<char>>::empty());
        assert(all_blocks(q) + bs.map_values(|b: cir::BasicBlockV| tr_block(b)) =~= all_blocks(q));
    } else {
        let init = bs.drop_last();
        assert forall|k: int| 0 <= k < init.len() implies block_ok(#[trigger] init[k]) by {
            assert(init[k] == bs[k]);
        }
        lemma_blocks_read(q, init, fs);
        let q2 = after_blocks(q, init);
        assert(block_ok(bs[bs.len() - 1]));
        lemma_block_read(q2, bs.last(), fs);
        lemma_run_concat(blocks_lines(init), block_lines(bs.last()), Some(q), fs);
        assert(all_blocks(q2) =~= all_blocks(q) + bs.drop_last().map_values(|b: cir::BasicBlockV| tr_block(b)));
        assert(all_blocks(after_blocks(q, bs)) =~= all_blocks(q) + bs.map_values(|b: cir::BasicBlockV| tr_block(b)));
    }
}

/// Reading a compiled function's lines from outside any function yields
/// the machine function it denotes.
#[verifier::spinoff_prover]
#[verifier::rlimit(100)]
proof fn lemma_function_read(f: cir::FunctionV, fs: Seq<vir::FunctionV>)
    requires
        function_ok(f),
    ensures
        run_lines(function_lines(f), None, fs)
            == Ok::<(Option<PendingV>, Seq<vir::FunctionV>), IrErr>((None, fs.push(tr_function(f)))),
{
    reveal_strlit("}");
    reveal_strlit("define ");
    let sig = sig_line(f);
    lemma_sig_shape(f);
    lemma_signature_reads_back(f);
    lemma_clean_tight(sig);
    lemma_run_one(sig, None, fs);
    let p0 = PendingV {
        name: f.name,
        params: tr_params(f.params),
        return_type: tr_type(f.return_type),
        blocks: seq![],
        current: None,
    };
    assert(run_lines(seq![sig], None, fs) == Ok::<(Option<PendingV>, Seq<vir::FunctionV>), IrErr>((Some(p0), fs)));
    lemma_blocks_read(p0, f.blocks, fs);
    let pk = after_blocks(p0, f.blocks);
    lemma_clean_tight("}"@);
    lemma_run_one("}"@, Some(pk), fs);
    let done = vir::FunctionV { name: pk.name, params: pk.params, return_type: pk.return_type, blocks: all_blocks(pk) };
    assert(all_blocks(p0) =~= Seq::<vir::BasicBlockV>::empty());
    assert(all_blocks(pk) =~= f.blocks.map_values(|b: cir::BasicBlockV| tr_block(b)));
    assert(done == tr_function(f));
    lemma_clean_tight(Seq::<char>::empty());
    lemma_run_one(Seq::<char>::empty(), None, fs.push(done));
    assert(!starts_with(Seq::<char>::empty(), "define "@));
    let ls1 = seq![sig];
    let ls2 = blocks_lines(f.blocks);
    let ls3 = seq!["}"@];
    let ls4 = seq![Seq::<char>::empty()];
    assert(function_lines(f) =~= ls1 + ls2 + ls3 + ls4);
    lemma_run_concat(ls1 + ls2 + ls3, ls4, None, fs);
    lemma_run_concat(ls1 + ls2, ls3, None, fs);
    lemma_run_concat(ls1, ls2, None, fs);
}

proof fn lemma_functions_read(fs: Seq<cir::FunctionV>, acc: Seq<vir::FunctionV>)
    requires
        forall|k: int| 0 <= k < fs.len() ==> function_ok(#[trigger] fs[k]),
    ensures
        run_lines(functions_lines(fs), None, acc)
            == Ok::<(Option<PendingV>, Seq<vir::FunctionV>), IrErr>((None, acc + fs.map_values(|f: cir::FunctionV| tr_function(f)))),
    decreases fs.len(),
{
    if fs.len() == 0 {
        assert(functions_lines(fs) =~= Seq::<Seq<char>>::empty());
        assert(acc + fs.map_values(|f: cir::FunctionV| tr_function(f)) =~= acc);
    } else {
        let init = fs.drop_last();
        assert forall|k: int| 0 <= k < init.len() implies function_ok(#[trigger] init[k]) by {
            assert(init[k] == fs[k]);
        }
        lemma_functions_read(init, acc);
        let acc2 = acc + init.map_values(|f: cir::FunctionV| tr_function(f));
        assert(function_ok(fs[fs.len() - 1]));
        lemma_function_read(fs.last(), acc2);
        lemma_run_concat(functions_lines(init), function_lines(fs.last()), None, acc);
        assert(acc2.push(tr_function(fs.last())) =~= acc + fs.map_values(|f: cir::FunctionV| tr_function(f)));
    }
}

/// The machine module that a compiled module's text denotes.
pub open spec fn tr_module(m: cir::ModuleV) -> vir::ModuleV {
    vir::ModuleV { functions: m.functions.map_values(|f: cir::FunctionV| tr_function(f)) }
}

/// A compiled module whose functions all read back.
pub open spec fn module_ok(m: cir::ModuleV) -> bool {
    forall|k: int| 0 <= k < m.functions.len() ==> function_ok(#[trigger] m.functions[k])
}

/// The machine reads back what the compiler writes: the text of a compiled
/// module whose names and operands are as the compiler writes them parses
/// to the machine module with the same functions, parameters, blocks,
/// instructions and terminators, in the same order.
pub proof fn law_module_text_reads_back(m: cir::ModuleV)
    requires
        module_ok(m),
    ensures
        spec_parse_module(cir::module_text(m)) == Ok::<vir::ModuleV, IrErr>(tr_module(m)),
{
    lemma_module_text_lines(m.functions);
    lemma_read_lines_run(functions_lines(m.functions), None, seq![]);
    lemma_functions_read(m.functions, seq![]);
    assert(Seq::<vir::FunctionV>::empty() + m.functions.map_values(|f: cir::FunctionV| tr_function(f))
        =~= m.functions.map_values(|f: cir::FunctionV| tr_function(f)));
}

} // verus!
