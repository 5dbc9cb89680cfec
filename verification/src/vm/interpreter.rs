//! Executes a linked program, block by block, from `main`.
use vstd::prelude::*;
use crate::vm::ir::{
    BasicBlock, BasicBlockV, Function, FunctionV, ICmpPred, Instr, InstrV, Operand, OperandV,
    Terminator, TerminatorV, operands_v, opt_name_v, incomings_v, instrs_v, blocks_v,
};
use crate::vm::linker::{
    FunctionRef, LinkedProgram, LinkedV, lookup_ref, entries_v, counts_fit, spec_link,
    law_link_table_sound,
};
use crate::vm::memory::{
    Memory, MemoryV, mem_empty, mem_set_local, mem_alloc_slot, mem_store_slot, mem_get_local,
    mem_load_slot,
};
use crate::vm::value::{Value, ValueV, unsigned_bits, to_unsigned};
use crate::vm::vm::Vm;

verus! {

/// An arithmetic or logic instruction kind.
#[derive(Debug, Clone, Copy, PartialEq, Eq, Structural)]
pub enum OpKind {
    Add,
    Sub,
    Mul,
    SDiv,
    SRem,
    And,
    Or,
    Xor,
}

/// Why a run stopped without a result.
#[derive(Debug)]
pub enum RunError {
    MainNotFound,
    MainNotI32,
    ArgCountMismatch { function: String, expected: usize, got: usize },
    UnknownBlock(String),
    BranchNotI1,
    /// Operands of the wrong type (`i32` for arithmetic, `i1` for logic).
    BadOperands(OpKind),
    DivisionByZero,
    /// `i32::MIN` divided by `-1`, whose quotient does not fit in `i32`.
    DivisionOverflow,
    IcmpPredicateNotForI1,
    IcmpTypeMismatch,
    UnknownFunction(String),
    StoreExpectsPointer,
    StoreUnknownSlot(String),
    LoadExpectsPointer,
    LoadUnknownSlot(String),
    PhiInEntryBlock,
    PhiNoIncoming(String),
    UnknownLocal(String),
    ConstOutOfRange,
    /// The step budget ran out.
    OutOfFuel,
    /// A called function has no blocks to run.
    EmptyFunction(String),
}

pub enum RunErrorV {
    MainNotFound,
    MainNotI32,
    ArgCountMismatch { function: Seq<char>, expected: usize, got: usize },
    UnknownBlock(Seq<char>),
    BranchNotI1,
    BadOperands(OpKind),
    DivisionByZero,
    DivisionOverflow,
    IcmpPredicateNotForI1,
    IcmpTypeMismatch,
    UnknownFunction(Seq<char>),
    StoreExpectsPointer,
    StoreUnknownSlot(Seq<char>),
    LoadExpectsPointer,
    LoadUnknownSlot(Seq<char>),
    PhiInEntryBlock,
    PhiNoIncoming(Seq<char>),
    UnknownLocal(Seq<char>),
    ConstOutOfRange,
    OutOfFuel,
    EmptyFunction(Seq<char>),
}

pub open spec fn rerr_v(e: RunError) -> RunErrorV {
    match e {
        RunError::MainNotFound => RunErrorV::MainNotFound,
        RunError::MainNotI32 => RunErrorV::MainNotI32,
        RunError::ArgCountMismatch { function, expected, got } => RunErrorV::ArgCountMismatch { function: function@, expected, got },
        RunError::UnknownBlock(n) => RunErrorV::UnknownBlock(n@),
        RunError::BranchNotI1 => RunErrorV::BranchNotI1,
        RunError::BadOperands(k) => RunErrorV::BadOperands(k),
        RunError::DivisionByZero => RunErrorV::DivisionByZero,
        RunError::DivisionOverflow => RunErrorV::DivisionOverflow,
        RunError::IcmpPredicateNotForI1 => RunErrorV::IcmpPredicateNotForI1,
        RunError::IcmpTypeMismatch => RunErrorV::IcmpTypeMismatch,
        RunError::UnknownFunction(n) => RunErrorV::UnknownFunction(n@),
        RunError::StoreExpectsPointer => RunErrorV::StoreExpectsPointer,
        RunError::StoreUnknownSlot(n) => RunErrorV::StoreUnknownSlot(n@),
        RunError::LoadExpectsPointer => RunErrorV::LoadExpectsPointer,
        RunError::LoadUnknownSlot(n) => RunErrorV::LoadUnknownSlot(n@),
        RunError::PhiInEntryBlock => RunErrorV::PhiInEntryBlock,
        RunError::PhiNoIncoming(n) => RunErrorV::PhiNoIncoming(n@),
        RunError::UnknownLocal(n) => RunErrorV::UnknownLocal(n@),
        RunError::ConstOutOfRange => RunErrorV::ConstOutOfRange,
        RunError::OutOfFuel => RunErrorV::OutOfFuel,
        RunError::EmptyFunction(s) => RunErrorV::EmptyFunction(s@),
    }
}

// ---------------------------------------------------------------------------
// Semantics
// ---------------------------------------------------------------------------

/// The value of an operand: a defined local, or an integer constant that
/// fits in `i32`, or a boolean constant.
pub open spec fn s_eval(m: MemoryV, op: OperandV) -> Result<ValueV, RunErrorV> {
    match op {
        OperandV::Local(n) => match mem_get_local(m, n) {
            Some(v) => Ok(v),
            None => Err(RunErrorV::UnknownLocal(n)),
        },
        OperandV::ConstInt(v) => if i32::MIN <= v <= i32::MAX {
            Ok(ValueV::I32(v as i32))
        } else {
            Err(RunErrorV::ConstOutOfRange)
        },
        OperandV::ConstBool(b) => Ok(ValueV::I1(b)),
    }
}

/// Division truncated toward zero, as Rust's `/` on integers.
pub open spec fn trunc_div(l: int, r: int) -> int {
    let a = if l < 0 { -l } else { l };
    let b = if r < 0 { -r } else { r };
    let q = a / b;
    if (l < 0) != (r < 0) { -q } else { q }
}

/// The remainder of truncated division, as Rust's `%` on integers: the
/// sign of the dividend and the magnitude of the remainder of the
/// magnitudes.
pub open spec fn trunc_rem(l: int, r: int) -> int {
    let a = if l < 0 { -l } else { l };
    let b = if r < 0 { -r } else { r };
    if l < 0 { -(a % b) } else { a % b }
}

pub open spec fn is_i32_op(k: OpKind) -> bool {
    match k {
        OpKind::Add | OpKind::Sub | OpKind::Mul | OpKind::SDiv | OpKind::SRem => true,
        _ => false,
    }
}

/// The result of an arithmetic (on `i32`, wrapping) or logic (on `i1`)
/// instruction.
pub open spec fn s_arith(k: OpKind, l: ValueV, r: ValueV) -> Result<ValueV, RunErrorV> {
    if is_i32_op(k) {
        match (l, r) {
            (ValueV::I32(a), ValueV::I32(b)) => match k {
                OpKind::Add => Ok(ValueV::I32(a.wrapping_add(b))),
                OpKind::Sub => Ok(ValueV::I32(a.wrapping_sub(b))),
                OpKind::Mul => Ok(ValueV::I32(a.wrapping_mul(b))),
                OpKind::SDiv => if b == 0 {
                    Err(RunErrorV::DivisionByZero)
                } else if a == i32::MIN && b == -1 {
                    Err(RunErrorV::DivisionOverflow)
                } else {
                    Ok(ValueV::I32(trunc_div(a as int, b as int) as i32))
                },
                _ => if b == 0 {
                    Err(RunErrorV::DivisionByZero)
                } else if a == i32::MIN && b == -1 {
                    Err(RunErrorV::DivisionOverflow)
                } else {
                    Ok(ValueV::I32(trunc_rem(a as int, b as int) as i32))
                },
            },
            _ => Err(RunErrorV::BadOperands(k)),
        }
    } else {
        match (l, r) {
            (ValueV::I1(a), ValueV::I1(b)) => match k {
                OpKind::And => Ok(ValueV::I1(a && b)),
                OpKind::Or => Ok(ValueV::I1(a || b)),
                _ => Ok(ValueV::I1(a != b)),
            },
            _ => Err(RunErrorV::BadOperands(k)),
        }
    }
}

/// Whether an integer comparison holds; the unsigned predicates compare the
/// bits read as unsigned numbers.
pub open spec fn pred_holds(p: ICmpPred, l: i32, r: i32) -> bool {
    match p {
        ICmpPred::EQ => l == r,
        ICmpPred::NE => l != r,
        ICmpPred::SGT => l > r,
        ICmpPred::SGE => l >= r,
        ICmpPred::SLT => l < r,
        ICmpPred::SLE => l <= r,
        ICmpPred::UGT => unsigned_bits(l) > unsigned_bits(r),
        ICmpPred::UGE => unsigned_bits(l) >= unsigned_bits(r),
        ICmpPred::ULT => unsigned_bits(l) < unsigned_bits(r),
        ICmpPred::ULE => unsigned_bits(l) <= unsigned_bits(r),
    }
}

/// A comparison: of two `i32`s by any predicate, or of two `i1`s by
/// equality or inequality.
pub open spec fn s_compare(p: ICmpPred, l: ValueV, r: ValueV) -> Result<bool, RunErrorV> {
    match (l, r) {
        (ValueV::I32(a), ValueV::I32(b)) => Ok(pred_holds(p, a, b)),
        (ValueV::I1(a), ValueV::I1(b)) => match p {
            ICmpPred::EQ => Ok(a == b),
            ICmpPred::NE => Ok(a != b),
            _ => Err(RunErrorV::IcmpPredicateNotForI1),
        },
        _ => Err(RunErrorV::IcmpTypeMismatch),
    }
}

/// The operands of a call, evaluated left to right.
pub open spec fn s_eval_args(m: MemoryV, args: Seq<OperandV>) -> Result<Seq<ValueV>, RunErrorV>
    decreases args.len(),
{
    if args.len() == 0 {
        Ok(seq![])
    } else {
        match s_eval(m, args[0]) {
            Err(e) => Err(e),
            Ok(v) => match s_eval_args(m, args.drop_first()) {
                Err(e) => Err(e),
                Ok(vs) => Ok(seq![v] + vs),
            },
        }
    }
}

/// The value a phi takes: its first incoming from the block that control
/// came from, read in `m`.
pub open spec fn s_phi_value(m: MemoryV, incomings: Seq<(OperandV, Seq<char>)>, pred: Seq<char>) -> Result<ValueV, RunErrorV>
    decreases incomings.len(),
{
    if incomings.len() == 0 {
        Err(RunErrorV::PhiNoIncoming(pred))
    } else if incomings[0].1 == pred {
        s_eval(m, incomings[0].0)
    } else {
        s_phi_value(m, incomings.drop_first(), pred)
    }
}

/// The destinations and values of the phis of a block, in order, every
/// value read in the memory `m` that the block is entered with.
pub open spec fn s_phi_values(m: MemoryV, is: Seq<InstrV>, pred: Option<Seq<char>>) -> Result<Seq<(Seq<char>, ValueV)>, RunErrorV>
    decreases is.len(),
{
    if is.len() == 0 {
        Ok(seq![])
    } else {
        match is[0] {
            InstrV::Phi { dest, incomings } => match pred {
                None => Err(RunErrorV::PhiInEntryBlock),
                Some(p) => match s_phi_value(m, incomings, p) {
                    Err(e) => Err(e),
                    Ok(v) => match s_phi_values(m, is.drop_first(), pred) {
                        Err(e) => Err(e),
                        Ok(ws) => Ok(seq![(dest, v)] + ws),
                    },
                },
            },
            _ => s_phi_values(m, is.drop_first(), pred),
        }
    }
}

/// Writes each local of `ws` in order.
pub open spec fn s_set_locals(m: MemoryV, ws: Seq<(Seq<char>, ValueV)>) -> MemoryV
    decreases ws.len(),
{
    if ws.len() == 0 {
        m
    } else {
        s_set_locals(mem_set_local(m, ws[0].0, ws[0].1), ws.drop_first())
    }
}

/// The phis of a block, as in LLVM IR: all incoming values are read on
/// entry to the block, then every phi's local is written.
pub open spec fn s_phis(m: MemoryV, is: Seq<InstrV>, pred: Option<Seq<char>>) -> Result<MemoryV, RunErrorV> {
    match s_phi_values(m, is, pred) {
        Err(e) => Err(e),
        Ok(ws) => Ok(s_set_locals(m, ws)),
    }
}

pub open spec fn writes_v(ws: Seq<(String, Value)>) -> Seq<(Seq<char>, ValueV)> {
    ws.map_values(|w: (String, Value)| (w.0@, w.1@))
}

/// Puts `p` in front of the writes of a successful result.
pub open spec fn prefix_writes(p: Seq<(Seq<char>, ValueV)>, r: Result<Seq<(Seq<char>, ValueV)>, RunErrorV>) -> Result<Seq<(Seq<char>, ValueV)>, RunErrorV> {
    match r {
        Ok(ws) => Ok(p + ws),
        Err(e) => Err(e),
    }
}

proof fn lemma_prefix_writes(p: Seq<(Seq<char>, ValueV)>, q: Seq<(Seq<char>, ValueV)>, r: Result<Seq<(Seq<char>, ValueV)>, RunErrorV>)
    ensures
        prefix_writes(p, prefix_writes(q, r)) == prefix_writes(p + q, r),
{
    if let Ok(ws) = r {
        assert(p + (q + ws) =~= (p + q) + ws);
    }
}

/// Whether every entry of the function table points at a function that
/// exists and has at least one block.
pub open spec fn program_wf(p: LinkedV) -> bool {
    forall|i: int| 0 <= i < p.functions.len() ==> ref_wf(p, #[trigger] p.functions[i].1)
}

pub open spec fn ref_wf(p: LinkedV, r: FunctionRef) -> bool {
    &&& r.module_index < p.modules.len()
    &&& r.function_index < p.modules[r.module_index as int].functions.len()
}

/// Whether every entry of the function table points at a function of the
/// program; the interpreter runs only such programs.
pub fn program_well_formed(p: &LinkedProgram) -> (b: bool)
    ensures
        b == program_wf(p@),
{
    let mut i: usize = 0;
    while i < p.functions.len()
        invariant
            i <= p.functions@.len(),
            forall|j: int| 0 <= j < i ==> ref_wf(p@, #[trigger] p@.functions[j].1),
        decreases p.functions@.len() - i,
    {
        let r = p.functions[i].1;
        assert(p@.functions[i as int].1 == r);
        if r.module_index >= p.modules.len() {
            return false;
        }
        assert(p@.modules[r.module_index as int] == p.modules@[r.module_index as int]@);
        if r.function_index >= p.modules[r.module_index].module.functions.len() {
            return false;
        }
        i = i + 1;
    }
    true
}

/// A program that linking produced is one that the interpreter runs.
pub proof fn law_linked_program_well_formed(p: LinkedV)
    requires
        counts_fit(p.modules),
        spec_link(p.modules) == Ok::<Seq<(Seq<char>, FunctionRef)>, Seq<char>>(p.functions),
    ensures
        program_wf(p),
{
    law_link_table_sound(p.modules);
}

/// A stack slot reads back what was stored: after `alloca` of `p`, a
/// `store` of an operand that evaluates to `x` in the memory after the
/// `alloca` (the pointer `p` itself included), through the local `p`, then a
/// `load` of `p` into `d`, the local `d` holds `x`; a `load` right after the
/// `alloca`, with no store, gives `i32 0` when the slot is new.
pub proof fn law_alloca_store_load(
    prog: LinkedV,
    m: MemoryV,
    ptr: Seq<char>,
    value: OperandV,
    d: Seq<char>,
    fuel: nat,
)
    ensures
        ({
            let a = s_exec_instr(prog, InstrV::Alloca { dest: ptr }, m, fuel);
            &&& a is Ok
            &&& a->Ok_0.1 == fuel
            &&& mem_get_local(a->Ok_0.0, ptr) == Some(ValueV::Ptr(ptr))
            &&& (!m.slots.contains_key(ptr) ==> ({
                let l = s_exec_instr(prog, InstrV::Load { dest: d, ptr: OperandV::Local(ptr) }, a->Ok_0.0, fuel);
                l is Ok && mem_get_local(l->Ok_0.0, d) == Some(ValueV::I32(0))
            }))
            &&& (s_eval(a->Ok_0.0, value) matches Ok(x) ==> ({
                let st = s_exec_instr(prog, InstrV::Store { value, ptr: OperandV::Local(ptr) }, a->Ok_0.0, fuel);
                &&& st is Ok
                &&& ({
                    let l = s_exec_instr(prog, InstrV::Load { dest: d, ptr: OperandV::Local(ptr) }, st->Ok_0.0, fuel);
                    l is Ok && mem_get_local(l->Ok_0.0, d) == Some(x)
                })
            }))
        }),
{
    let m1 = mem_set_local(mem_alloc_slot(m, ptr), ptr, ValueV::Ptr(ptr));
    assert(s_exec_instr(prog, InstrV::Alloca { dest: ptr }, m, fuel) == Ok::<(MemoryV, nat), RunErrorV>((m1, fuel)));
    assert(m1.slots.contains_key(ptr));
    assert(mem_get_local(m1, ptr) == Some(ValueV::Ptr(ptr)));
    if let Ok(x) = s_eval(m1, value) {
        let m2 = mem_store_slot(m1, ptr, x);
        assert(s_exec_instr(prog, InstrV::Store { value, ptr: OperandV::Local(ptr) }, m1, fuel)
            == Ok::<(MemoryV, nat), RunErrorV>((m2, fuel)));
        assert(mem_get_local(m2, ptr) == Some(ValueV::Ptr(ptr)));
        assert(mem_load_slot(m2, ptr) == Some(x));
    }
}

pub open spec fn fun_at(p: LinkedV, r: FunctionRef) -> FunctionV {
    p.modules[r.module_index as int].functions[r.function_index as int]
}

/// The index of the last block with a given label.
pub open spec fn block_index(bs: Seq<BasicBlockV>, name: Seq<char>) -> Option<int>
    decreases bs.len(),
{
    if bs.len() == 0 {
        None
    } else if bs.last().name == name {
        Some(bs.len() - 1)
    } else {
        block_index(bs.drop_last(), name)
    }
}

pub open spec fn op_instr(i: InstrV) -> Option<(OpKind, Seq<char>, OperandV, OperandV)> {
    match i {
        InstrV::Add { dest, lhs, rhs } => Some((OpKind::Add, dest, lhs, rhs)),
        InstrV::Sub { dest, lhs, rhs } => Some((OpKind::Sub, dest, lhs, rhs)),
        InstrV::Mul { dest, lhs, rhs } => Some((OpKind::Mul, dest, lhs, rhs)),
        InstrV::SDiv { dest, lhs, rhs } => Some((OpKind::SDiv, dest, lhs, rhs)),
        InstrV::SRem { dest, lhs, rhs } => Some((OpKind::SRem, dest, lhs, rhs)),
        InstrV::And { dest, lhs, rhs } => Some((OpKind::And, dest, lhs, rhs)),
        InstrV::Or { dest, lhs, rhs } => Some((OpKind::Or, dest, lhs, rhs)),
        InstrV::Xor { dest, lhs, rhs } => Some((OpKind::Xor, dest, lhs, rhs)),
        _ => None,
    }
}

/// Whether a value has the operand type that an instruction kind needs.
pub open spec fn operand_fits(k: OpKind, v: ValueV) -> bool {
    if is_i32_op(k) { v is I32 } else { v is I1 }
}

/// One instruction other than a phi: the new memory and the fuel left.  A
/// call spends one unit of fuel and runs the callee with the rest.
pub open spec fn s_exec_instr(p: LinkedV, i: InstrV, m: MemoryV, fuel: nat) -> Result<(MemoryV, nat), RunErrorV>
    decreases fuel, 0int, 0int,
{
    match op_instr(i) {
        Some((k, dest, lhs, rhs)) => match s_eval(m, lhs) {
            Err(e) => Err(e),
            Ok(l) => if !operand_fits(k, l) {
                Err(RunErrorV::BadOperands(k))
            } else {
                match s_eval(m, rhs) {
                    Err(e) => Err(e),
                    Ok(r) => if !operand_fits(k, r) {
                        Err(RunErrorV::BadOperands(k))
                    } else {
                        match s_arith(k, l, r) {
                            Err(e) => Err(e),
                            Ok(v) => Ok((mem_set_local(m, dest, v), fuel)),
                        }
                    },
                }
            },
        },
        None => match i {
            InstrV::ICmp { dest, pred, lhs, rhs } => match s_eval(m, lhs) {
                Err(e) => Err(e),
                Ok(l) => match s_eval(m, rhs) {
                    Err(e) => Err(e),
                    Ok(r) => match s_compare(pred, l, r) {
                        Err(e) => Err(e),
                        Ok(b) => Ok((mem_set_local(m, dest, ValueV::I1(b)), fuel)),
                    },
                },
            },
            InstrV::Call { dest, func, args } => match s_eval_args(m, args) {
                Err(e) => Err(e),
                Ok(vals) => match lookup_ref(p.functions, func) {
                    None => Err(RunErrorV::UnknownFunction(func)),
                    Some(r) => if fuel == 0 {
                        Err(RunErrorV::OutOfFuel)
                    } else {
                        match s_run_function(p, r, vals, (fuel - 1) as nat) {
                            Err(e) => Err(e),
                            Ok((v, f1)) => Ok((
                                match dest {
                                    Some(d) => mem_set_local(m, d, v),
                                    None => m,
                                },
                                f1,
                            )),
                        }
                    },
                },
            },
            InstrV::Alloca { dest } => Ok((mem_set_local(mem_alloc_slot(m, dest), dest, ValueV::Ptr(dest)), fuel)),
            InstrV::Store { value, ptr } => match s_eval(m, value) {
                Err(e) => Err(e),
                Ok(v) => match s_eval(m, ptr) {
                    Err(e) => Err(e),
                    Ok(ValueV::Ptr(n)) => if m.slots.contains_key(n) {
                        Ok((mem_store_slot(m, n, v), fuel))
                    } else {
                        Err(RunErrorV::StoreUnknownSlot(n))
                    },
                    Ok(_) => Err(RunErrorV::StoreExpectsPointer),
                },
            },
            InstrV::Load { dest, ptr } => match s_eval(m, ptr) {
                Err(e) => Err(e),
                Ok(ValueV::Ptr(n)) => match mem_load_slot(m, n) {
                    Some(v) => Ok((mem_set_local(m, dest, v), fuel)),
                    None => Err(RunErrorV::LoadUnknownSlot(n)),
                },
                Ok(_) => Err(RunErrorV::LoadExpectsPointer),
            },
            _ => Ok((m, fuel)),
        },
    }
}

/// The non-phi instructions of a block, in order.
pub open spec fn s_exec_instrs(p: LinkedV, is: Seq<InstrV>, m: MemoryV, fuel: nat) -> Result<(MemoryV, nat), RunErrorV>
    decreases fuel, 1int, is.len(),
{
    if is.len() == 0 {
        Ok((m, fuel))
    } else if is[0] is Phi {
        s_exec_instrs(p, is.drop_first(), m, fuel)
    } else {
        match s_exec_instr(p, is[0], m, fuel) {
            Err(e) => Err(e),
            Ok((m1, f1)) => if f1 > fuel {
                Err(RunErrorV::OutOfFuel)
            } else {
                s_exec_instrs(p, is.drop_first(), m1, f1)
            },
        }
    }
}

/// Runs blocks of `f` from block `cur`, entered from block `prev`; each
/// block spends one unit of fuel.  Yields the returned value and the fuel left.
pub open spec fn s_run_blocks(p: LinkedV, f: FunctionV, m: MemoryV, cur: int, prev: Option<Seq<char>>, fuel: nat) -> Result<(ValueV, nat), RunErrorV>
    decreases fuel, 2int, 0int,
{
    if fuel == 0 {
        Err(RunErrorV::OutOfFuel)
    } else if cur < 0 || cur >= f.blocks.len() {
        // Never taken: blocks are entered at 0 in a function that has one,
        // or by an index that the label table gave.
        Err(RunErrorV::UnknownBlock(seq![]))
    } else {
        let bb = f.blocks[cur];
        match s_phis(m, bb.instrs, prev) {
            Err(e) => Err(e),
            Ok(m1) => match s_exec_instrs(p, bb.instrs, m1, (fuel - 1) as nat) {
                Err(e) => Err(e),
                Ok((m2, f1)) => if f1 >= fuel {
                    Err(RunErrorV::OutOfFuel)
                } else {
                    match bb.term {
                        TerminatorV::Ret { value } => match s_eval(m2, value) {
                            Err(e) => Err(e),
                            Ok(v) => Ok((v, f1)),
                        },
                        TerminatorV::Br { dest } => match block_index(f.blocks, dest) {
                            None => Err(RunErrorV::UnknownBlock(dest)),
                            Some(j) => s_run_blocks(p, f, m2, j, Some(bb.name), f1),
                        },
                        TerminatorV::CondBr { cond, then_dest, else_dest } => match s_eval(m2, cond) {
                            Err(e) => Err(e),
                            Ok(ValueV::I1(b)) => {
                                let dest = if b { then_dest } else { else_dest };
                                match block_index(f.blocks, dest) {
                                    None => Err(RunErrorV::UnknownBlock(dest)),
                                    Some(j) => s_run_blocks(p, f, m2, j, Some(bb.name), f1),
                                }
                            },
                            Ok(_) => Err(RunErrorV::BranchNotI1),
                        },
                    }
                },
            },
        }
    }
}

/// The memory of a fresh activation: each parameter bound to its argument.
pub open spec fn bind_params(m: MemoryV, ps: Seq<crate::vm::ir::ParamV>, args: Seq<ValueV>) -> MemoryV
    decreases ps.len(),
{
    if ps.len() == 0 || args.len() == 0 {
        m
    } else {
        bind_params(mem_set_local(m, ps[0].name, args[0]), ps.drop_first(), args.drop_first())
    }
}

/// Calls a function: checks the argument count, binds the parameters, and
/// runs from the first block (an error if it has none).
pub open spec fn s_run_function(p: LinkedV, r: FunctionRef, args: Seq<ValueV>, fuel: nat) -> Result<(ValueV, nat), RunErrorV>
    decreases fuel, 3int, 0int,
{
    let f = fun_at(p, r);
    if f.params.len() != args.len() {
        Err(RunErrorV::ArgCountMismatch { function: f.name, expected: f.params.len() as usize, got: args.len() as usize })
    } else if f.blocks.len() == 0 {
        Err(RunErrorV::EmptyFunction(f.name))
    } else {
        s_run_blocks(p, f, bind_params(mem_empty(), f.params, args), 0, None, fuel)
    }
}

/// Runs `main` with no arguments; its result must be an `i32`.
pub open spec fn s_run_main(p: LinkedV, fuel: nat) -> Result<i32, RunErrorV> {
    match lookup_ref(p.functions, "main"@) {
        None => Err(RunErrorV::MainNotFound),
        Some(r) => match s_run_function(p, r, seq![], fuel) {
            Err(e) => Err(e),
            Ok((ValueV::I32(v), _)) => Ok(v),
            Ok(_) => Err(RunErrorV::MainNotI32),
        },
    }
}

/// A comparison instruction's effect on memory (comparisons spend no fuel).
pub open spec fn compare_step(p: LinkedV, i: InstrV, m: MemoryV) -> Result<MemoryV, RunErrorV> {
    match s_exec_instr(p, i, m, 0) {
        Ok((m1, _)) => Ok(m1),
        Err(e) => Err(e),
    }
}

pub open spec fn values_v(s: Seq<Value>) -> Seq<ValueV> {
    s.map_values(|v: Value| v@)
}

pub proof fn lemma_lookup_ref_in(es: Seq<(Seq<char>, FunctionRef)>, n: Seq<char>)
    ensures
        lookup_ref(es, n) matches Some(r) ==> exists|i: int| 0 <= i < es.len() && (#[trigger] es[i]).1 == r,
    decreases es.len(),
{
    if es.len() > 0 && es.last().0 != n {
        lemma_lookup_ref_in(es.drop_last(), n);
        if let Some(r) = lookup_ref(es, n) {
            let i = choose|i: int| 0 <= i < es.drop_last().len() && (#[trigger] es.drop_last()[i]).1 == r;
            assert(es[i] == es.drop_last()[i]);
        }
    } else if es.len() > 0 {
        assert(es[es.len() - 1] == es.last());
    }
}

/// Division truncated toward zero.
fn div_trunc(a: i32, b: i32) -> (r: i32)
    requires
        b != 0,
        !(a == i32::MIN && b == -1),
    ensures
        r == trunc_div(a as int, b as int),
{
    let aa: i64 = if a < 0 { -(a as i64) } else { a as i64 };
    let bb: i64 = if b < 0 { -(b as i64) } else { b as i64 };
    let q: i64 = aa / bb;
    assert(q <= aa) by (nonlinear_arith)
        requires
            aa >= 0,
            bb >= 1,
            q == aa / bb,
    ;
    assert(q >= 0) by (nonlinear_arith)
        requires
            aa >= 0,
            bb >= 1,
            q == aa / bb,
    ;
    if bb == 1 {
        assert(q == aa) by (nonlinear_arith)
            requires
                bb == 1,
                q == aa / bb,
        ;
    } else {
        assert(q <= aa / 2) by (nonlinear_arith)
            requires
                aa >= 0,
                bb >= 2,
                q == aa / bb,
        ;
    }
    if (a < 0) != (b < 0) {
        (-q) as i32
    } else {
        q as i32
    }
}

/// The remainder of truncated division.
fn rem_trunc(a: i32, b: i32) -> (r: i32)
    requires
        b != 0,
    ensures
        r == trunc_rem(a as int, b as int),
{
    let aa: i64 = if a < 0 { -(a as i64) } else { a as i64 };
    let bb: i64 = if b < 0 { -(b as i64) } else { b as i64 };
    let m: i64 = aa % bb;
    assert(0 <= m < bb) by (nonlinear_arith)
        requires
            aa >= 0,
            bb >= 1,
            m == aa % bb,
    ;
    if a < 0 {
        (-m) as i32
    } else {
        m as i32
    }
}

/// The last block with a given label.
fn find_block(blocks: &Vec<BasicBlock>, name: &String) -> (r: Option<usize>)
    ensures
        r matches Some(k) ==> block_index(blocks_v(blocks@), name@) == Some(k as int),
        r is None ==> block_index(blocks_v(blocks@), name@) is None,
        r matches Some(j) ==> j < blocks@.len(),
{
    let ghost bv = blocks_v(blocks@);
    let mut j: usize = blocks.len();
    assert(bv.subrange(0, j as int) =~= bv);
    while j > 0
        invariant
            j <= blocks@.len(),
            bv == blocks_v(blocks@),
            block_index(bv, name@) == block_index(bv.subrange(0, j as int), name@),
        decreases j,
    {
        let ghost sub = bv.subrange(0, j as int);
        assert(sub.drop_last() =~= bv.subrange(0, j - 1));
        if blocks[j - 1].name == *name {
            return Some(j - 1);
        }
        j = j - 1;
    }
    None
}

/// The position of the function named `name` in the table.
fn find_function(table: &Vec<(String, FunctionRef)>, name: &String) -> (r: Option<FunctionRef>)
    ensures
        r == lookup_ref(entries_v(table@), name@),
{
    let ghost ev = entries_v(table@);
    let mut j: usize = table.len();
    assert(ev.subrange(0, j as int) =~= ev);
    while j > 0
        invariant
            j <= table@.len(),
            ev == entries_v(table@),
            lookup_ref(ev, name@) == lookup_ref(ev.subrange(0, j as int), name@),
        decreases j,
    {
        let ghost sub = ev.subrange(0, j as int);
        assert(sub.drop_last() =~= ev.subrange(0, j - 1));
        if table[j - 1].0 == *name {
            return Some(table[j - 1].1);
        }
        j = j - 1;
    }
    None
}

pub open spec fn run_res(r: Result<(Value, u64), RunError>, s: Result<(ValueV, nat), RunErrorV>) -> bool {
    match s {
        Ok((v, f)) => r is Ok && r->Ok_0.0@ == v && r->Ok_0.1 == f,
        Err(e) => r is Err && rerr_v(r->Err_0) == e,
    }
}

pub open spec fn exec_res(r: Result<u64, RunError>, m: MemoryV, s: Result<(MemoryV, nat), RunErrorV>) -> bool {
    match s {
        Ok((m1, f)) => r is Ok && r->Ok_0 == f && m == m1,
        Err(e) => r is Err && rerr_v(r->Err_0) == e,
    }
}

pub open spec fn val_res(r: Result<Value, RunError>, s: Result<ValueV, RunErrorV>) -> bool {
    match s {
        Ok(v) => r is Ok && r->Ok_0@ == v,
        Err(e) => r is Err && rerr_v(r->Err_0) == e,
    }
}

/// Runs programs of one machine.
pub struct Interpreter<'a> {
    vm: &'a Vm,
}

impl<'a> Interpreter<'a> {
    pub closed spec fn prog(&self) -> LinkedV {
        self.vm.program@
    }

    /// An interpreter for the program of `vm`.
    pub fn new(vm: &'a Vm) -> (r: Self)
        ensures
            r.prog() == vm.program@,
    {
        Interpreter { vm }
    }

    /// Runs `main` with a step budget that no practical run exhausts
    /// (`u64::MAX` blocks and calls); see `s_run_main`.
    pub fn run_main(&mut self) -> (r: Result<i32, RunError>)
        requires
            program_wf(old(self).prog()),
        ensures
            match s_run_main(old(self).prog(), u64::MAX as nat) {
                Ok(v) => r == Ok::<i32, RunError>(v),
                Err(e) => r is Err && rerr_v(r->Err_0) == e,
            },
    {
        self.run_main_with_fuel(u64::MAX)
    }

    /// Runs `main`, stopping with `OutOfFuel` once `fuel` blocks and calls
    /// have been spent; see `s_run_main`.
    pub fn run_main_with_fuel(&mut self, fuel: u64) -> (r: Result<i32, RunError>)
        requires
            program_wf(old(self).prog()),
        ensures
            match s_run_main(old(self).prog(), fuel as nat) {
                Ok(v) => r == Ok::<i32, RunError>(v),
                Err(e) => r is Err && rerr_v(r->Err_0) == e,
            },
    {
        let main_name = String::from_str("main");
        let main_ref = match find_function(&self.vm.program.functions, &main_name) {
            Some(r) => r,
            None => {
                return Err(RunError::MainNotFound);
            },
        };
        proof {
            lemma_lookup_ref_in(self.prog().functions, "main"@);
        }
        let (value, _) = self.run_function(main_ref, Vec::new(), fuel)?;
        match value.as_i32() {
            Some(v) => Ok(v),
            None => Err(RunError::MainNotI32),
        }
    }

    fn eval_operand(&self, op: &Operand, memory: &Memory) -> (r: Result<Value, RunError>)
        ensures
            val_res(r, s_eval(memory@, op@)),
    {
        match op {
            Operand::Local(name) => match memory.get_local(name.as_str()) {
                Some(v) => Ok(v.copy()),
                None => Err(RunError::UnknownLocal(name.clone())),
            },
            Operand::ConstInt(v) => {
                if *v >= i32::MIN as i64 && *v <= i32::MAX as i64 {
                    Ok(Value::I32(*v as i32))
                } else {
                    Err(RunError::ConstOutOfRange)
                }
            },
            Operand::ConstBool(b) => Ok(Value::I1(*b)),
        }
    }

    fn eval_icmp(&self, pred: &ICmpPred, lhs: i32, rhs: i32) -> (r: bool)
        ensures
            r == pred_holds(*pred, lhs, rhs),
    {
        match pred {
            ICmpPred::EQ => lhs == rhs,
            ICmpPred::NE => lhs != rhs,
            ICmpPred::SGT => lhs > rhs,
            ICmpPred::SGE => lhs >= rhs,
            ICmpPred::SLT => lhs < rhs,
            ICmpPred::SLE => lhs <= rhs,
            ICmpPred::UGT => to_unsigned(lhs) > to_unsigned(rhs),
            ICmpPred::UGE => to_unsigned(lhs) >= to_unsigned(rhs),
            ICmpPred::ULT => to_unsigned(lhs) < to_unsigned(rhs),
            ICmpPred::ULE => to_unsigned(lhs) <= to_unsigned(rhs),
        }
    }

    /// The memory of a fresh activation of `function` called with `args`.
    fn bind_args(&self, function: &Function, args: &Vec<Value>) -> (memory: Memory)
        requires
            function.params@.len() == args@.len(),
        ensures
            memory@ == bind_params(mem_empty(), function@.params, values_v(args@)),
    {
        let mut memory = Memory::default();
        let ghost pv = function@.params;
        let ghost av = values_v(args@);
        let mut i: usize = 0;
        assert(pv.subrange(0, pv.len() as int) =~= pv);
        assert(av.subrange(0, av.len() as int) =~= av);
        while i < args.len()
            invariant
                i <= args@.len(),
                args@.len() == function.params@.len(),
                pv == function@.params,
                av == values_v(args@),
                pv.len() == args@.len(),
                av.len() == args@.len(),
                bind_params(mem_empty(), pv, av) == bind_params(
                    memory@,
                    pv.subrange(i as int, pv.len() as int),
                    av.subrange(i as int, av.len() as int),
                ),
            decreases args@.len() - i,
        {
            let ghost ps = pv.subrange(i as int, pv.len() as int);
            let ghost vs = av.subrange(i as int, av.len() as int);
            assert(ps.drop_first() =~= pv.subrange(i + 1, pv.len() as int));
            assert(vs.drop_first() =~= av.subrange(i + 1, av.len() as int));
            assert(ps[0].name == function.params@[i as int].name@);
            assert(vs[0] == args@[i as int]@);
            memory.set_local(function.params[i].name.as_str(), args[i].copy());
            i = i + 1;
        }
        assert(pv.subrange(i as int, pv.len() as int) =~= seq![]);
        memory
    }

    /// The phis of a block: every incoming value is read first, then all
    /// the phis' locals are written.
    fn exec_phis(&self, bb: &BasicBlock, memory: &mut Memory, prev: &Option<String>) -> (r: Result<(), RunError>)
        ensures
            match s_phis(old(memory)@, instrs_v(bb.instrs@), opt_name_v(*prev)) {
                Ok(m) => r is Ok && final(memory)@ == m,
                Err(e) => r is Err && rerr_v(r->Err_0) == e,
            },
    {
        let ghost iv = instrs_v(bb.instrs@);
        let ghost prev_v = opt_name_v(*prev);
        let ghost m0 = memory@;
        assert(iv.subrange(0, iv.len() as int) =~= iv);
        let mut writes: Vec<(String, Value)> = Vec::new();
        proof {
            if let Ok(ws) = s_phi_values(m0, iv, prev_v) {
                assert(writes_v(writes@) + ws =~= ws);
            }
            assert(writes_v(writes@) =~= Seq::<(Seq<char>, ValueV)>::empty());
        }
        let mut k: usize = 0;
        while k < bb.instrs.len()
            invariant
                k <= bb.instrs@.len(),
                iv == instrs_v(bb.instrs@),
                iv.len() == bb.instrs@.len(),
                prev_v == opt_name_v(*prev),
                m0 == old(memory)@,
                memory@ == m0,
                s_phi_values(m0, iv, prev_v) == prefix_writes(writes_v(writes@), s_phi_values(m0, iv.subrange(k as int, iv.len() as int), prev_v)),
            decreases bb.instrs@.len() - k,
        {
            let ghost sub = iv.subrange(k as int, iv.len() as int);
            assert(sub[0] == bb.instrs@[k as int]@);
            assert(sub.drop_first() =~= iv.subrange(k + 1, iv.len() as int));
            if let Instr::Phi { dest, .. } = &bb.instrs[k] {
                let pred: Option<&str> = match prev {
                    Some(x) => Some(x.as_str()),
                    None => None,
                };
                let v = self.phi_value(&bb.instrs[k], memory, pred)?;
                let ghost before = writes_v(writes@);
                writes.push((dest.clone(), v));
                proof {
                    assert(writes_v(writes@) =~= before + seq![(dest@, v@)]);
                    lemma_prefix_writes(before, seq![(dest@, v@)], s_phi_values(m0, iv.subrange(k + 1, iv.len() as int), prev_v));
                }
            }
            k = k + 1;
        }
        assert(iv.subrange(k as int, iv.len() as int) =~= seq![]);
        let ghost ws = writes_v(writes@);
        assert(ws + Seq::<(Seq<char>, ValueV)>::empty() =~= ws);
        assert(ws.subrange(0, ws.len() as int) =~= ws);
        let mut j: usize = 0;
        while j < writes.len()
            invariant
                j <= writes@.len(),
                ws == writes_v(writes@),
                ws.len() == writes@.len(),
                s_set_locals(m0, ws) == s_set_locals(memory@, ws.subrange(j as int, ws.len() as int)),
            decreases writes@.len() - j,
        {
            let ghost sub = ws.subrange(j as int, ws.len() as int);
            assert(sub[0] == (writes@[j as int].0@, writes@[j as int].1@));
            assert(sub.drop_first() =~= ws.subrange(j + 1, ws.len() as int));
            memory.set_local(writes[j].0.as_str(), writes[j].1.copy());
            j = j + 1;
        }
        assert(ws.subrange(j as int, ws.len() as int) =~= seq![]);
        Ok(())
    }

    /// The instructions of a block other than its phis, in order.
    fn exec_body(&self, bb: &BasicBlock, memory: &mut Memory, fuel: u64) -> (r: Result<u64, RunError>)
        requires
            program_wf(self.prog()),
        ensures
            exec_res(r, final(memory)@, s_exec_instrs(self.prog(), instrs_v(bb.instrs@), old(memory)@, fuel as nat)),
            r is Ok ==> r->Ok_0 <= fuel,
        decreases fuel, 2int,
    {
        let ghost p = self.prog();
        let ghost iv = instrs_v(bb.instrs@);
        let ghost m1 = memory@;
        let mut left: u64 = fuel;
        assert(iv.subrange(0, iv.len() as int) =~= iv);
        let mut k: usize = 0;
        while k < bb.instrs.len()
            invariant
                k <= bb.instrs@.len(),
                p == self.prog(),
                program_wf(p),
                iv == instrs_v(bb.instrs@),
                iv.len() == bb.instrs@.len(),
                m1 == old(memory)@,
                left <= fuel,
                s_exec_instrs(p, iv, m1, fuel as nat) == s_exec_instrs(p, iv.subrange(k as int, iv.len() as int), memory@, left as nat),
            decreases bb.instrs@.len() - k,
        {
            let ghost sub = iv.subrange(k as int, iv.len() as int);
            assert(sub[0] == bb.instrs@[k as int]@);
            assert(sub.drop_first() =~= iv.subrange(k + 1, iv.len() as int));
            match &bb.instrs[k] {
                Instr::Phi { .. } => {},
                instr => {
                    left = self.exec_instruction(instr, memory, left)?;
                },
            }
            k = k + 1;
        }
        assert(iv.subrange(k as int, iv.len() as int) =~= seq![]);
        Ok(left)
    }

    fn run_function(&self, func_ref: FunctionRef, args: Vec<Value>, fuel: u64) -> (r: Result<(Value, u64), RunError>)
        requires
            program_wf(self.prog()),
            ref_wf(self.prog(), func_ref),
        ensures
            run_res(r, s_run_function(self.prog(), func_ref, values_v(args@), fuel as nat)),
            r is Ok ==> r->Ok_0.1 <= fuel,
        decreases fuel, 3int,
    {
        let ghost p = self.prog();
        let program = &self.vm.program;
        let module = &program.modules[func_ref.module_index].module;
        let function = &module.functions[func_ref.function_index];
        let ghost fv = function@;
        assert(fv == fun_at(p, func_ref));
        if function.params.len() != args.len() {
            return Err(RunError::ArgCountMismatch {
                function: function.name.clone(),
                expected: function.params.len(),
                got: args.len(),
            });
        }
        if function.blocks.len() == 0 {
            return Err(RunError::EmptyFunction(function.name.clone()));
        }
        let mut memory = self.bind_args(function, &args);
        let mut current_bb: usize = 0;
        let mut prev: Option<String> = None;
        let mut left: u64 = fuel;
        let ghost bv = blocks_v(function.blocks@);
        loop
            invariant
                p == self.prog(),
                program_wf(p),
                fv == function@,
                bv == blocks_v(function.blocks@),
                bv == fv.blocks,
                function.blocks@.len() > 0,
                current_bb < function.blocks@.len(),
                left <= fuel,
                s_run_function(p, func_ref, values_v(args@), fuel as nat) == s_run_blocks(
                    p,
                    fv,
                    memory@,
                    current_bb as int,
                    opt_name_v(prev),
                    left as nat,
                ),
            decreases left,
        {
            if left == 0 {
                return Err(RunError::OutOfFuel);
            }
            let bb = &function.blocks[current_bb];
            assert(bv[current_bb as int] == bb@);
            let ghost m0 = memory@;
            let ghost l0 = left;
            let ghost pv0 = opt_name_v(prev);
            self.exec_phis(bb, &mut memory, &prev)?;
            let ghost m1 = memory@;
            left = self.exec_body(bb, &mut memory, left - 1)?;
            let ghost m2 = memory@;
            assert(s_phis(m0, bb@.instrs, pv0) == Ok::<MemoryV, RunErrorV>(m1));
            assert(s_exec_instrs(p, bb@.instrs, m1, (l0 - 1) as nat) == Ok::<(MemoryV, nat), RunErrorV>((m2, left as nat)));
            assert(s_run_blocks(p, fv, m0, current_bb as int, pv0, l0 as nat) == match bb@.term {
                TerminatorV::Ret { value } => match s_eval(m2, value) {
                    Err(e) => Err(e),
                    Ok(v) => Ok((v, left as nat)),
                },
                TerminatorV::Br { dest } => match block_index(fv.blocks, dest) {
                    None => Err(RunErrorV::UnknownBlock(dest)),
                    Some(j) => s_run_blocks(p, fv, m2, j, Some(bb@.name), left as nat),
                },
                TerminatorV::CondBr { cond, then_dest, else_dest } => match s_eval(m2, cond) {
                    Err(e) => Err(e),
                    Ok(ValueV::I1(b)) => {
                        let dest = if b { then_dest } else { else_dest };
                        match block_index(fv.blocks, dest) {
                            None => Err(RunErrorV::UnknownBlock(dest)),
                            Some(j) => s_run_blocks(p, fv, m2, j, Some(bb@.name), left as nat),
                        }
                    },
                    Ok(_) => Err(RunErrorV::BranchNotI1),
                },
            });
            match &bb.term {
                Terminator::Ret { value } => {
                    let v = self.eval_operand(value, &memory)?;
                    return Ok((v, left));
                },
                Terminator::Br { dest } => {
                    match find_block(&function.blocks, dest) {
                        Some(j) => {
                            prev = Some(bb.name.clone());
                            current_bb = j;
                        },
                        None => {
                            return Err(RunError::UnknownBlock(dest.clone()));
                        },
                    }
                },
                Terminator::CondBr { cond, then_dest, else_dest } => {
                    let c = self.eval_operand(cond, &memory)?;
                    let c = match c.as_i1() {
                        Some(b) => b,
                        None => {
                            return Err(RunError::BranchNotI1);
                        },
                    };
                    let dest = if c { then_dest } else { else_dest };
                    match find_block(&function.blocks, dest) {
                        Some(j) => {
                            prev = Some(bb.name.clone());
                            current_bb = j;
                        },
                        None => {
                            return Err(RunError::UnknownBlock(dest.clone()));
                        },
                    }
                },
            }
        }
    }

    /// The value of one phi, read in `memory`.
    #[verifier::loop_isolation(false)]
    fn phi_value(&self, instr: &Instr, memory: &Memory, pred: Option<&str>) -> (r: Result<Value, RunError>)
        requires
            instr is Phi,
        ensures
            match instr@ {
                InstrV::Phi { dest, incomings } => match pred {
                    None => r is Err && rerr_v(r->Err_0) == RunErrorV::PhiInEntryBlock,
                    Some(p) => val_res(r, s_phi_value(memory@, incomings, p@)),
                },
                _ => true,
            },
    {
        let pred = match pred {
            Some(p) => p,
            None => {
                return Err(RunError::PhiInEntryBlock);
            },
        };
        match instr {
            Instr::Phi { dest, incomings } => {
                let ghost inc = incomings_v(incomings@);
                let pred_s = String::from_str(pred);
                assert(inc.subrange(0, inc.len() as int) =~= inc);
                let mut i: usize = 0;
                while i < incomings.len()
                    invariant
                        i <= incomings@.len(),
                        inc == incomings_v(incomings@),
                        inc.len() == incomings@.len(),
                        pred_s@ == pred@,
                        s_phi_value(memory@, inc, pred@) == s_phi_value(memory@, inc.subrange(i as int, inc.len() as int), pred@),
                    decreases incomings@.len() - i,
                {
                    let ghost sub = inc.subrange(i as int, inc.len() as int);
                    assert(sub[0] == (incomings@[i as int].0@, incomings@[i as int].1@));
                    assert(sub.drop_first() =~= inc.subrange(i + 1, inc.len() as int));
                    if incomings[i].1 == pred_s {
                        return self.eval_operand(&incomings[i].0, memory);
                    }
                    i = i + 1;
                }
                Err(RunError::PhiNoIncoming(pred_s))
            },
            _ => Err(RunError::PhiInEntryBlock),
        }
    }

    /// The operands of an arithmetic or logic instruction, checked for type.
    fn op_operands(&self, k: OpKind, lhs: &Operand, rhs: &Operand, memory: &Memory) -> (r: Result<(Value, Value), RunError>)
        ensures
            match s_eval(memory@, lhs@) {
                Err(e) => r is Err && rerr_v(r->Err_0) == e,
                Ok(l) => if !operand_fits(k, l) {
                    r is Err && rerr_v(r->Err_0) == RunErrorV::BadOperands(k)
                } else {
                    match s_eval(memory@, rhs@) {
                        Err(e) => r is Err && rerr_v(r->Err_0) == e,
                        Ok(rv) => if !operand_fits(k, rv) {
                            r is Err && rerr_v(r->Err_0) == RunErrorV::BadOperands(k)
                        } else {
                            r is Ok && r->Ok_0.0@ == l && r->Ok_0.1@ == rv
                        },
                    }
                },
            },
    {
        let l = self.eval_operand(lhs, memory)?;
        let ok_l = match (k, &l) {
            (OpKind::And, Value::I1(_)) | (OpKind::Or, Value::I1(_)) | (OpKind::Xor, Value::I1(_)) => true,
            (OpKind::And, _) | (OpKind::Or, _) | (OpKind::Xor, _) => false,
            (_, Value::I32(_)) => true,
            _ => false,
        };
        if !ok_l {
            return Err(RunError::BadOperands(k));
        }
        let r = self.eval_operand(rhs, memory)?;
        let ok_r = match (k, &r) {
            (OpKind::And, Value::I1(_)) | (OpKind::Or, Value::I1(_)) | (OpKind::Xor, Value::I1(_)) => true,
            (OpKind::And, _) | (OpKind::Or, _) | (OpKind::Xor, _) => false,
            (_, Value::I32(_)) => true,
            _ => false,
        };
        if !ok_r {
            return Err(RunError::BadOperands(k));
        }
        Ok((l, r))
    }

    /// The result of an arithmetic or logic instruction on checked operands.
    fn arith(&self, k: OpKind, l: &Value, r: &Value) -> (res: Result<Value, RunError>)
        requires
            operand_fits(k, l@),
            operand_fits(k, r@),
        ensures
            val_res(res, s_arith(k, l@, r@)),
    {
        match (l, r) {
            (Value::I32(a), Value::I32(b)) => match k {
                OpKind::Add => Ok(Value::I32(a.wrapping_add(*b))),
                OpKind::Sub => Ok(Value::I32(a.wrapping_sub(*b))),
                OpKind::Mul => Ok(Value::I32(a.wrapping_mul(*b))),
                OpKind::SDiv => {
                    if *b == 0 {
                        Err(RunError::DivisionByZero)
                    } else if *a == i32::MIN && *b == -1 {
                        Err(RunError::DivisionOverflow)
                    } else {
                        Ok(Value::I32(div_trunc(*a, *b)))
                    }
                },
                _ => {
                    if *b == 0 {
                        Err(RunError::DivisionByZero)
                    } else if *a == i32::MIN && *b == -1 {
                        Err(RunError::DivisionOverflow)
                    } else {
                        Ok(Value::I32(rem_trunc(*a, *b)))
                    }
                },
            },
            (Value::I1(a), Value::I1(b)) => match k {
                OpKind::And => Ok(Value::I1(*a && *b)),
                OpKind::Or => Ok(Value::I1(*a || *b)),
                _ => Ok(Value::I1(*a != *b)),
            },
            _ => Err(RunError::BadOperands(k)),
        }
    }

    /// One instruction; a phi, which the block's entry has already run, does
    /// nothing here.  An error leaves the memory as it was.
    fn exec_instruction(&self, instr: &Instr, memory: &mut Memory, fuel: u64) -> (r: Result<u64, RunError>)
        requires
            program_wf(self.prog()),
        ensures
            exec_res(r, final(memory)@, s_exec_instr(self.prog(), instr@, old(memory)@, fuel as nat)),
            r is Ok ==> r->Ok_0 <= fuel,
            r is Err ==> final(memory)@ == old(memory)@,
        decreases fuel, 1int,
    {
        let (k, dest, lhs, rhs) = match instr {
            Instr::Add { dest, lhs, rhs } => (OpKind::Add, dest, lhs, rhs),
            Instr::Sub { dest, lhs, rhs } => (OpKind::Sub, dest, lhs, rhs),
            Instr::Mul { dest, lhs, rhs } => (OpKind::Mul, dest, lhs, rhs),
            Instr::SDiv { dest, lhs, rhs } => (OpKind::SDiv, dest, lhs, rhs),
            Instr::SRem { dest, lhs, rhs } => (OpKind::SRem, dest, lhs, rhs),
            Instr::And { dest, lhs, rhs } => (OpKind::And, dest, lhs, rhs),
            Instr::Or { dest, lhs, rhs } => (OpKind::Or, dest, lhs, rhs),
            Instr::Xor { dest, lhs, rhs } => (OpKind::Xor, dest, lhs, rhs),
            _ => {
                return self.exec_other(instr, memory, fuel);
            },
        };
        let (l, r) = self.op_operands(k, lhs, rhs, memory)?;
        let v = self.arith(k, &l, &r)?;
        memory.set_local(dest.as_str(), v);
        Ok(fuel)
    }

    /// A comparison instruction.
    fn exec_compare(&self, instr: &Instr, memory: &mut Memory) -> (r: Result<(), RunError>)
        requires
            instr is ICmp,
        ensures
            match compare_step(self.prog(), instr@, old(memory)@) {
                Ok(m) => r is Ok && final(memory)@ == m,
                Err(e) => r is Err && rerr_v(r->Err_0) == e,
            },
            r is Err ==> final(memory)@ == old(memory)@,
    {
        match instr {
            Instr::ICmp { dest, pred, lhs, rhs } => {
                let lhs_val = self.eval_operand(lhs, memory)?;
                let rhs_val = self.eval_operand(rhs, memory)?;
                let result = match (&lhs_val, &rhs_val) {
                    (Value::I32(l), Value::I32(r)) => self.eval_icmp(pred, *l, *r),
                    (Value::I1(l), Value::I1(r)) => match pred {
                        ICmpPred::EQ => *l == *r,
                        ICmpPred::NE => *l != *r,
                        _ => {
                            return Err(RunError::IcmpPredicateNotForI1);
                        },
                    },
                    _ => {
                        return Err(RunError::IcmpTypeMismatch);
                    },
                };
                memory.set_local(dest.as_str(), Value::I1(result));
                Ok(())
            },
            _ => Ok(()),
        }
    }

    #[verifier::loop_isolation(false)]
    fn exec_other(&self, instr: &Instr, memory: &mut Memory, fuel: u64) -> (r: Result<u64, RunError>)
        requires
            program_wf(self.prog()),
            op_instr(instr@) is None,
        ensures
            exec_res(r, final(memory)@, s_exec_instr(self.prog(), instr@, old(memory)@, fuel as nat)),
            r is Ok ==> r->Ok_0 <= fuel,
            r is Err ==> final(memory)@ == old(memory)@,
        decreases fuel, 0int,
    {
        match instr {
            Instr::ICmp { .. } => {
                self.exec_compare(instr, memory)?;
                Ok(fuel)
            },
            Instr::Call { dest, func, args } => {
                let ghost av = operands_v(args@);
                let ghost m = memory@;
                let mut values: Vec<Value> = Vec::new();
                let mut i: usize = 0;
                assert(av.subrange(0, av.len() as int) =~= av);
                assert(values_v(values@) =~= seq![]);
                while i < args.len()
                    invariant
                        i <= args@.len(),
                        av == operands_v(args@),
                        av.len() == args@.len(),
                        memory@ == m,
                        s_eval_args(m, av) == match s_eval_args(m, av.subrange(i as int, av.len() as int)) {
                            Ok(vs) => Ok(values_v(values@) + vs),
                            Err(e) => Err::<Seq<ValueV>, RunErrorV>(e),
                        },
                    decreases args@.len() - i,
                {
                    let ghost sub = av.subrange(i as int, av.len() as int);
                    assert(sub[0] == args@[i as int]@);
                    assert(sub.drop_first() =~= av.subrange(i + 1, av.len() as int));
                    let v = self.eval_operand(&args[i], memory)?;
                    let ghost before = values_v(values@);
                    values.push(v);
                    proof {
                        assert(values_v(values@) =~= before.push(v@));
                        match s_eval_args(m, sub.drop_first()) {
                            Ok(vs) => {
                                assert(before + (seq![v@] + vs) =~= before.push(v@) + vs);
                            },
                            Err(_) => {},
                        }
                    }
                    i = i + 1;
                }
                proof {
                    assert(av.subrange(i as int, av.len() as int) =~= seq![]);
                    assert(values_v(values@) + Seq::<ValueV>::empty() =~= values_v(values@));
                }
                let func_ref = match find_function(&self.vm.program.functions, func) {
                    Some(r) => r,
                    None => {
                        return Err(RunError::UnknownFunction(func.clone()));
                    },
                };
                proof {
                    lemma_lookup_ref_in(self.prog().functions, func@);
                }
                if fuel == 0 {
                    return Err(RunError::OutOfFuel);
                }
                let (ret, rest) = self.run_function(func_ref, values, fuel - 1)?;
                match dest {
                    Some(d) => {
                        memory.set_local(d.as_str(), ret);
                    },
                    None => {},
                }
                Ok(rest)
            },
            Instr::Alloca { dest } => {
                memory.alloc_slot(dest.as_str());
                memory.set_local(dest.as_str(), Value::Ptr(dest.clone()));
                Ok(fuel)
            },
            Instr::Store { value, ptr } => {
                let val = self.eval_operand(value, memory)?;
                let ptr_val = self.eval_operand(ptr, memory)?;
                let name = match ptr_val {
                    Value::Ptr(n) => n,
                    _ => {
                        return Err(RunError::StoreExpectsPointer);
                    },
                };
                if !memory.store_slot(name.as_str(), val) {
                    return Err(RunError::StoreUnknownSlot(name));
                }
                Ok(fuel)
            },
            Instr::Load { dest, ptr } => {
                let ptr_val = self.eval_operand(ptr, memory)?;
                let name = match ptr_val {
                    Value::Ptr(n) => n,
                    _ => {
                        return Err(RunError::LoadExpectsPointer);
                    },
                };
                let val = match memory.load_slot(name.as_str()) {
                    Some(v) => v,
                    None => {
                        return Err(RunError::LoadUnknownSlot(name));
                    },
                };
                memory.set_local(dest.as_str(), val);
                Ok(fuel)
            },
            _ => Ok(fuel),
        }
    }
}

} // verus!
