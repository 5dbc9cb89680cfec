//! Where control goes: a block ending in `br` continues at the block of
//! that name, one ending in a conditional `br` at the block its condition
//! picks (the first label when true, the second when false), and one
//! ending in `ret` returns its operand's value.
use vstd::prelude::*;
use crate::vm::ir::{FunctionV, BasicBlockV, TerminatorV, OperandV, InstrV};
use crate::vm::value::ValueV;
use crate::vm::memory::{MemoryV, mem_get_local, mem_set_local};
use crate::vm::linker::LinkedV;
use crate::vm::interpreter::{s_run_blocks, s_eval, block_index, s_phis, s_phi_values, s_set_locals, s_exec_instrs, s_phi_value, RunErrorV};

verus! {

/// Block `j` is the only block named `n`.
pub open spec fn only_block_named(bs: Seq<BasicBlockV>, n: Seq<char>, j: int) -> bool {
    &&& 0 <= j < bs.len()
    &&& bs[j].name == n
    &&& forall|k: int| 0 <= k < bs.len() && k != j ==> #[trigger] bs[k].name != n
}

proof fn lemma_block_index_unique(bs: Seq<BasicBlockV>, n: Seq<char>, j: int)
    requires
        only_block_named(bs, n, j),
    ensures
        block_index(bs, n) == Some(j),
    decreases bs.len(),
{
    if j != bs.len() - 1 {
        let init = bs.drop_last();
        assert(bs[bs.len() - 1].name != n);
        assert forall|k: int| 0 <= k < init.len() && k != j implies #[trigger] init[k].name != n by {
            assert(init[k] == bs[k]);
        }
        assert(init[j] == bs[j]);
        lemma_block_index_unique(init, n, j);
    }
}

proof fn lemma_empty_block(p: LinkedV, bb: BasicBlockV, m: MemoryV, prev: Option<Seq<char>>, fuel: nat)
    requires
        bb.instrs.len() == 0,
    ensures
        s_phis(m, bb.instrs, prev) == Ok::<MemoryV, RunErrorV>(m),
        s_exec_instrs(p, bb.instrs, m, fuel) == Ok::<(MemoryV, nat), RunErrorV>((m, fuel)),
{
    assert(s_phi_values(m, bb.instrs, prev) == Ok::<Seq<(Seq<char>, ValueV)>, RunErrorV>(seq![]));
    assert(s_set_locals(m, seq![]) == m);
}

/// A block with no instructions that ends in `br label %n` continues at the
/// block named `n`, entered from it, with one step spent.
pub proof fn law_branch_goes_to_named_block(
    p: LinkedV,
    f: FunctionV,
    m: MemoryV,
    cur: int,
    prev: Option<Seq<char>>,
    fuel: nat,
    n: Seq<char>,
    j: int,
)
    requires
        0 <= cur < f.blocks.len(),
        f.blocks[cur].instrs.len() == 0,
        f.blocks[cur].term == (TerminatorV::Br { dest: n }),
        only_block_named(f.blocks, n, j),
        fuel > 0,
    ensures
        s_run_blocks(p, f, m, cur, prev, fuel) == s_run_blocks(p, f, m, j, Some(f.blocks[cur].name), (fuel - 1) as nat),
{
    lemma_block_index_unique(f.blocks, n, j);
    lemma_empty_block(p, f.blocks[cur], m, prev, (fuel - 1) as nat);
}

/// A block with no instructions that ends in `br i1 c, label %t, label %e`
/// continues at the block named `t` when `c` is true and at the one named
/// `e` when it is false.
pub proof fn law_conditional_branch_follows_condition(
    p: LinkedV,
    f: FunctionV,
    m: MemoryV,
    cur: int,
    prev: Option<Seq<char>>,
    fuel: nat,
    cond: OperandV,
    c: bool,
    t: Seq<char>,
    e: Seq<char>,
    j: int,
)
    requires
        0 <= cur < f.blocks.len(),
        f.blocks[cur].instrs.len() == 0,
        f.blocks[cur].term == (TerminatorV::CondBr { cond, then_dest: t, else_dest: e }),
        s_eval(m, cond) == Ok::<ValueV, RunErrorV>(ValueV::I1(c)),
        only_block_named(f.blocks, (if c { t } else { e }), j),
        fuel > 0,
    ensures
        s_run_blocks(p, f, m, cur, prev, fuel) == s_run_blocks(p, f, m, j, Some(f.blocks[cur].name), (fuel - 1) as nat),
{
    lemma_block_index_unique(f.blocks, if c { t } else { e }, j);
    lemma_empty_block(p, f.blocks[cur], m, prev, (fuel - 1) as nat);
}

/// A block with no instructions that ends in `ret` returns its operand's
/// value, with one step spent.
pub proof fn law_return_gives_operand(
    p: LinkedV,
    f: FunctionV,
    m: MemoryV,
    cur: int,
    prev: Option<Seq<char>>,
    fuel: nat,
    value: OperandV,
    v: ValueV,
)
    requires
        0 <= cur < f.blocks.len(),
        f.blocks[cur].instrs.len() == 0,
        f.blocks[cur].term == (TerminatorV::Ret { value }),
        s_eval(m, value) == Ok::<ValueV, RunErrorV>(v),
        fuel > 0,
    ensures
        s_run_blocks(p, f, m, cur, prev, fuel) == Ok::<(ValueV, nat), RunErrorV>((v, (fuel - 1) as nat)),
{
    lemma_empty_block(p, f.blocks[cur], m, prev, (fuel - 1) as nat);
}

/// The operand a phi takes from block `pred`: its first incoming from it.
pub open spec fn incoming_from(incs: Seq<(OperandV, Seq<char>)>, pred: Seq<char>) -> Option<OperandV>
    decreases incs.len(),
{
    if incs.len() == 0 {
        None
    } else if incs[0].1 == pred {
        Some(incs[0].0)
    } else {
        incoming_from(incs.drop_first(), pred)
    }
}

proof fn lemma_phi_value(m: MemoryV, incs: Seq<(OperandV, Seq<char>)>, pred: Seq<char>)
    requires
        incoming_from(incs, pred) is Some,
    ensures
        s_phi_value(m, incs, pred) == s_eval(m, incoming_from(incs, pred)->Some_0),
    decreases incs.len(),
{
    if incs[0].1 != pred {
        lemma_phi_value(m, incs.drop_first(), pred);
    }
}

/// The phis all read from `pred`, and their values in `m` exist.
pub open spec fn phis_ready(m: MemoryV, is: Seq<InstrV>, pred: Seq<char>) -> bool {
    forall|k: int| 0 <= k < is.len() ==> {
        &&& #[trigger] is[k] is Phi
        &&& incoming_from(is[k]->Phi_incomings, pred) is Some
        &&& s_eval(m, incoming_from(is[k]->Phi_incomings, pred)->Some_0) is Ok
    }
}

proof fn lemma_phi_values(m: MemoryV, is: Seq<InstrV>, pred: Seq<char>)
    requires
        phis_ready(m, is, pred),
    ensures
        s_phi_values(m, is, Some(pred)) is Ok,
        s_phi_values(m, is, Some(pred))->Ok_0.len() == is.len(),
        forall|k: int| 0 <= k < is.len() ==> #[trigger] s_phi_values(m, is, Some(pred))->Ok_0[k]
            == (is[k]->Phi_dest, s_eval(m, incoming_from(is[k]->Phi_incomings, pred)->Some_0)->Ok_0),
    decreases is.len(),
{
    if is.len() > 0 {
        let rest = is.drop_first();
        assert forall|k: int| 0 <= k < rest.len() implies {
            &&& #[trigger] rest[k] is Phi
            &&& incoming_from(rest[k]->Phi_incomings, pred) is Some
            &&& s_eval(m, incoming_from(rest[k]->Phi_incomings, pred)->Some_0) is Ok
        } by {
            assert(rest[k] == is[k + 1]);
        }
        lemma_phi_values(m, rest, pred);
        assert(is[0] is Phi);
        lemma_phi_value(m, is[0]->Phi_incomings, pred);
        let ws = s_phi_values(m, rest, Some(pred))->Ok_0;
        let w0 = (is[0]->Phi_dest, s_eval(m, incoming_from(is[0]->Phi_incomings, pred)->Some_0)->Ok_0);
        let all = seq![w0] + ws;
        assert(s_phi_values(m, is, Some(pred)) == Ok::<Seq<(Seq<char>, ValueV)>, RunErrorV>(all));
        assert forall|k: int| 0 <= k < is.len() implies #[trigger] all[k]
            == (is[k]->Phi_dest, s_eval(m, incoming_from(is[k]->Phi_incomings, pred)->Some_0)->Ok_0) by {
            if k > 0 {
                assert(all[k] == ws[k - 1]);
                assert(rest[k - 1] == is[k]);
            }
        }
    }
}

proof fn lemma_set_locals_other(m: MemoryV, ws: Seq<(Seq<char>, ValueV)>, n: Seq<char>)
    requires
        forall|k: int| 0 <= k < ws.len() ==> (#[trigger] ws[k]).0 != n,
    ensures
        mem_get_local(s_set_locals(m, ws), n) == mem_get_local(m, n),
    decreases ws.len(),
{
    if ws.len() > 0 {
        assert(ws[0].0 != n);
        assert forall|k: int| 0 <= k < ws.drop_first().len() implies (#[trigger] ws.drop_first()[k]).0 != n by {
            assert(ws.drop_first()[k] == ws[k + 1]);
        }
        lemma_set_locals_other(mem_set_local(m, ws[0].0, ws[0].1), ws.drop_first(), n);
    }
}

proof fn lemma_set_locals(m: MemoryV, ws: Seq<(Seq<char>, ValueV)>)
    requires
        forall|k: int, l: int| 0 <= k < l < ws.len() ==> (#[trigger] ws[k]).0 != (#[trigger] ws[l]).0,
    ensures
        forall|k: int| 0 <= k < ws.len() ==> mem_get_local(s_set_locals(m, ws), (#[trigger] ws[k]).0) == Some(ws[k].1),
    decreases ws.len(),
{
    if ws.len() > 0 {
        let rest = ws.drop_first();
        let m1 = mem_set_local(m, ws[0].0, ws[0].1);
        assert forall|k: int, l: int| 0 <= k < l < rest.len() implies (#[trigger] rest[k]).0 != (#[trigger] rest[l]).0 by {
            assert(rest[k] == ws[k + 1] && rest[l] == ws[l + 1]);
        }
        lemma_set_locals(m1, rest);
        assert forall|k: int| 0 <= k < rest.len() implies (#[trigger] rest[k]).0 != ws[0].0 by {
            assert(rest[k] == ws[k + 1]);
        }
        lemma_set_locals_other(m1, rest, ws[0].0);
        assert forall|k: int| 0 <= k < ws.len() implies mem_get_local(s_set_locals(m, ws), (#[trigger] ws[k]).0) == Some(ws[k].1) by {
            if k > 0 {
                assert(ws[k] == rest[k - 1]);
            }
        }
    }
}

/// Phis read on entry: when a block whose instructions are phis with
/// distinct destinations is entered from `pred`, each destination takes the
/// value its incoming from `pred` has in the memory the block is entered
/// with, even where that operand is another phi's destination.
pub proof fn law_phis_read_entry_memory(m: MemoryV, is: Seq<InstrV>, pred: Seq<char>)
    requires
        phis_ready(m, is, pred),
        forall|k: int, l: int| 0 <= k < l < is.len() ==> (#[trigger] is[k])->Phi_dest != (#[trigger] is[l])->Phi_dest,
    ensures
        s_phis(m, is, Some(pred)) is Ok,
        forall|k: int| 0 <= k < is.len() ==> mem_get_local(s_phis(m, is, Some(pred))->Ok_0, (#[trigger] is[k])->Phi_dest)
            == Some(s_eval(m, incoming_from(is[k]->Phi_incomings, pred)->Some_0)->Ok_0),
{
    lemma_phi_values(m, is, pred);
    let ws = s_phi_values(m, is, Some(pred))->Ok_0;
    assert forall|k: int, l: int| 0 <= k < l < ws.len() implies (#[trigger] ws[k]).0 != (#[trigger] ws[l]).0 by {
        assert(ws[k].0 == is[k]->Phi_dest);
        assert(ws[l].0 == is[l]->Phi_dest);
    }
    lemma_set_locals(m, ws);
    assert forall|k: int| 0 <= k < is.len() implies mem_get_local(s_phis(m, is, Some(pred))->Ok_0, (#[trigger] is[k])->Phi_dest)
        == Some(s_eval(m, incoming_from(is[k]->Phi_incomings, pred)->Some_0)->Ok_0) by {
        assert(ws[k].0 == is[k]->Phi_dest);
    }
}

} // verus!
