//! A lowered operator computes what the source operator means: the
//! instruction the compiler emits for a binary operator on two integer (or
//! truth-value) constants, read back by the machine and run, sets its
//! destination to the value the source operator gives.
use vstd::prelude::*;
use crate::text::int_decimal;
use crate::readback::{tr_instr, tr_operand, lemma_operand_reads_back};
use crate::readback::lowering::{lemma_int_decimal_value, lemma_nat_decimal};
use crate::compiler::ast::{BinOp, ExprV, Type, UnaryOp};
use crate::compiler::codegen::{s_binary_instr, s_emit, BuilderV, CodegenErrorV, b_temp, b_push};
use crate::compiler::ir as cir;
use crate::compiler::sema::FunSigV;
use crate::compiler::op_meaning::{source_relation, law_comparison_lowering_keeps_meaning, is_comparison};
use crate::vm::ir::OperandV;
use crate::vm::value::ValueV;
use crate::vm::memory::{MemoryV, mem_set_local};
use crate::vm::linker::LinkedV;
use crate::vm::interpreter::{s_exec_instr, RunErrorV};
use crate::vm::reader::{spec_parse_predicate, spec_parse_operand, IrErr};
use crate::vm::arith_meaning::{wrap32, quot_rem, law_wrapping_arithmetic, law_truncating_division, law_boolean_connectives};
use crate::vm::compare_meaning::law_comparison_instruction_runs_as_llvm;

verus! {

/// An integer as the compiler writes it reads back as that integer.
pub proof fn lemma_int_text_reads_back(v: i32)
    ensures
        tr_operand(int_decimal(v as int)) == OperandV::ConstInt(v as i64),
{
    reveal_strlit("true");
    reveal_strlit("false");
    lemma_int_decimal_value(v);
    let s = int_decimal(v as int);
    if v < 0 {
        assert(s[0] == '-');
    } else {
        lemma_nat_decimal(v as nat);
        assert(crate::text::spec_is_digit(s[0]));
    }
    assert(s != "true"@) by {
        if s == "true"@ {
            assert(s[0] == 't');
        }
    }
    assert(s != "false"@) by {
        if s == "false"@ {
            assert(s[0] == 'f');
        }
    }
}

/// Every `i32` as the compiler writes it is read by the machine as that
/// integer, and `true` and `false` as the truth values.
pub proof fn law_constants_read_back(v: i32)
    ensures
        spec_parse_operand(int_decimal(v as int)) == Ok::<OperandV, IrErr>(OperandV::ConstInt(v as i64)),
        spec_parse_operand("true"@) == Ok::<OperandV, IrErr>(OperandV::ConstBool(true)),
        spec_parse_operand("false"@) == Ok::<OperandV, IrErr>(OperandV::ConstBool(false)),
{
    lemma_int_decimal_value(v);
    lemma_int_text_reads_back(v);
    lemma_operand_reads_back(int_decimal(v as int));
    crate::readback::lowering::lemma_literal_values();
    lemma_operand_reads_back("true"@);
    lemma_operand_reads_back("false"@);
    reveal_strlit("true");
    reveal_strlit("false");
    assert(tr_operand("true"@) == OperandV::ConstBool(true));
    assert(tr_operand("false"@) == OperandV::ConstBool(false)) by {
        assert("false"@ != "true"@) by { assert("false"@.len() != "true"@.len()); }
    }
}

/// Lowering keeps what an operator computes on two `i32` constants: the
/// instruction emitted for it, read back and run, sets the destination to
/// the wrapped sum, difference or product; to the truth of the comparison;
/// or to a quotient or remainder rounded toward zero (and fails where the
/// division does: by zero, or `i32::MIN` by `-1`).
pub proof fn law_lowered_operator_computes(
    op: BinOp,
    d: Seq<char>,
    lhs: ExprV,
    env: Seq<(Seq<char>, Type)>,
    funs: Seq<FunSigV>,
    prog: LinkedV,
    m: MemoryV,
    a: i32,
    b: i32,
    fuel: nat,
)
    requires
        op != BinOp::And && op != BinOp::Or,
        s_binary_instr(op, d, int_decimal(a as int), int_decimal(b as int), lhs, env, funs) is Ok,
    ensures
        ({
            let i = s_binary_instr(op, d, int_decimal(a as int), int_decimal(b as int), lhs, env, funs)->Ok_0;
            let res = s_exec_instr(prog, tr_instr(i), m, fuel);
            let n = d.drop_first();
            &&& op == BinOp::Add ==> res == Ok::<(MemoryV, nat), RunErrorV>((mem_set_local(m, n, ValueV::I32(wrap32(a + b) as i32)), fuel))
            &&& op == BinOp::Sub ==> res == Ok::<(MemoryV, nat), RunErrorV>((mem_set_local(m, n, ValueV::I32(wrap32(a - b) as i32)), fuel))
            &&& op == BinOp::Mul ==> res == Ok::<(MemoryV, nat), RunErrorV>((mem_set_local(m, n, ValueV::I32(wrap32(a * b) as i32)), fuel))
            &&& is_comparison(op) ==> res == Ok::<(MemoryV, nat), RunErrorV>((
                mem_set_local(m, n, ValueV::I1(source_relation(op, a as int, b as int))),
                fuel,
            ))
            &&& (op == BinOp::Div || op == BinOp::Rem) && (b == 0 || (a == i32::MIN && b == -1)) ==> res is Err
            &&& op == BinOp::Div && b != 0 && !(a == i32::MIN && b == -1) ==> exists|q: i32, r: i32|
                res == Ok::<(MemoryV, nat), RunErrorV>((mem_set_local(m, n, ValueV::I32(q)), fuel))
                    && quot_rem(a as int, b as int, q as int, r as int)
            &&& op == BinOp::Rem && b != 0 && !(a == i32::MIN && b == -1) ==> exists|q: i32, r: i32|
                res == Ok::<(MemoryV, nat), RunErrorV>((mem_set_local(m, n, ValueV::I32(r)), fuel))
                    && quot_rem(a as int, b as int, q as int, r as int)
        }),
{
    lemma_int_text_reads_back(a);
    lemma_int_text_reads_back(b);
    let la = int_decimal(a as int);
    let lb = int_decimal(b as int);
    let i = s_binary_instr(op, d, la, lb, lhs, env, funs)->Ok_0;
    let n = d.drop_first();
    law_wrapping_arithmetic(prog, m, n, a, b, fuel);
    law_truncating_division(prog, m, n, a, b, fuel);
    if is_comparison(op) {
        law_comparison_lowering_keeps_meaning(op, d, la, lb, lhs, env, funs, a, b);
        let kw = i->ICmp_pred;
        reveal_strlit("eq");
        reveal_strlit("ne");
        reveal_strlit("sgt");
        reveal_strlit("sge");
        reveal_strlit("slt");
        reveal_strlit("sle");
        assert(spec_parse_predicate(kw) is Ok);
        law_comparison_instruction_runs_as_llvm(prog, m, n, kw, a, b, fuel);
    }
}

/// Lowering keeps what `&&` and `||` compute on two truth-value constants.
pub proof fn law_lowered_connective_computes(
    op: BinOp,
    d: Seq<char>,
    lhs: ExprV,
    env: Seq<(Seq<char>, Type)>,
    funs: Seq<FunSigV>,
    prog: LinkedV,
    m: MemoryV,
    x: bool,
    y: bool,
    fuel: nat,
)
    requires
        op == BinOp::And || op == BinOp::Or,
    ensures
        ({
            let tx = if x { "true"@ } else { "false"@ };
            let ty = if y { "true"@ } else { "false"@ };
            let i = s_binary_instr(op, d, tx, ty, lhs, env, funs)->Ok_0;
            &&& s_binary_instr(op, d, tx, ty, lhs, env, funs) is Ok
            &&& s_exec_instr(prog, tr_instr(i), m, fuel) == Ok::<(MemoryV, nat), RunErrorV>((
                mem_set_local(m, d.drop_first(), ValueV::I1(if op == BinOp::And { x && y } else { x || y })),
                fuel,
            ))
        }),
{
    reveal_strlit("true");
    reveal_strlit("false");
    let tx = if x { "true"@ } else { "false"@ };
    let ty = if y { "true"@ } else { "false"@ };
    assert(tr_operand(tx) == OperandV::ConstBool(x)) by {
        assert(tx[0] != '%');
        assert("true"@ != "false"@) by { assert("true"@.len() != "false"@.len()); }
    }
    assert(tr_operand(ty) == OperandV::ConstBool(y)) by {
        assert(ty[0] != '%');
        assert("true"@ != "false"@) by { assert("true"@.len() != "false"@.len()); }
    }
    law_boolean_connectives(prog, m, d.drop_first(), x, y, fuel);
}

/// Lowering `-` on an integer constant appends to the current block an
/// instruction that, read back and run, sets the expression's value to the
/// negation wrapped into 32 bits.
pub proof fn law_lowered_negation_computes(funs: Seq<FunSigV>, st: BuilderV, a: i32, prog: LinkedV, m: MemoryV, fuel: nat)
    requires
        0 <= st.current < st.blocks.len(),
    ensures
        ({
            let r = s_emit(funs, st, ExprV::Unary { op: UnaryOp::Neg, expr: Box::new(ExprV::Int(a)) });
            &&& r is Ok
            &&& ({
                let (st2, v) = r->Ok_0;
                let i = st2.blocks[st.current].instrs.last();
                &&& st2.blocks[st.current].instrs.len() == st.blocks[st.current].instrs.len() + 1
                &&& s_exec_instr(prog, tr_instr(i), m, fuel) == Ok::<(MemoryV, nat), RunErrorV>((
                    mem_set_local(m, v.drop_first(), ValueV::I32(wrap32(0 - a) as i32)),
                    fuel,
                ))
            })
        }),
{
    reveal_strlit("0");
    lemma_int_text_reads_back(a);
    lemma_int_text_reads_back(0);
    assert(int_decimal(0) =~= "0"@);
    let e = ExprV::Unary { op: UnaryOp::Neg, expr: Box::new(ExprV::Int(a)) };
    assert(s_emit(funs, st, ExprV::Int(a)) == Ok::<(BuilderV, Seq<char>), CodegenErrorV>((st, int_decimal(a as int))));
    let (st1, d) = b_temp(st);
    let i = cir::InstrV::Sub { dest: d, lhs: "0"@, rhs: int_decimal(a as int) };
    assert(s_emit(funs, st, e) == Ok::<(BuilderV, Seq<char>), CodegenErrorV>((b_push(st1, i), d)));
    let st2 = b_push(st1, i);
    assert(st2.blocks[st.current].instrs == st.blocks[st.current].instrs.push(i));
    law_wrapping_arithmetic(prog, m, d.drop_first(), 0, a, fuel);
    assert((0i32) as int == 0);
}

/// Lowering `!` on a truth-value constant appends to the current block an
/// instruction that, read back and run, sets the expression's value to the
/// negated truth value.
pub proof fn law_lowered_not_computes(funs: Seq<FunSigV>, st: BuilderV, x: bool, prog: LinkedV, m: MemoryV, fuel: nat)
    requires
        0 <= st.current < st.blocks.len(),
    ensures
        ({
            let r = s_emit(funs, st, ExprV::Unary { op: UnaryOp::Not, expr: Box::new(ExprV::Bool(x)) });
            &&& r is Ok
            &&& ({
                let (st2, v) = r->Ok_0;
                let i = st2.blocks[st.current].instrs.last();
                &&& st2.blocks[st.current].instrs.len() == st.blocks[st.current].instrs.len() + 1
                &&& s_exec_instr(prog, tr_instr(i), m, fuel) == Ok::<(MemoryV, nat), RunErrorV>((
                    mem_set_local(m, v.drop_first(), ValueV::I1(!x)),
                    fuel,
                ))
            })
        }),
{
    reveal_strlit("true");
    reveal_strlit("false");
    let tx = if x { "true"@ } else { "false"@ };
    assert(tr_operand(tx) == OperandV::ConstBool(x)) by {
        assert(tx[0] != '%');
        assert("true"@ != "false"@) by { assert("true"@.len() != "false"@.len()); }
    }
    assert(tr_operand("true"@) == OperandV::ConstBool(true));
    let e = ExprV::Unary { op: UnaryOp::Not, expr: Box::new(ExprV::Bool(x)) };
    assert(s_emit(funs, st, ExprV::Bool(x)) == Ok::<(BuilderV, Seq<char>), CodegenErrorV>((st, tx)));
    let (st1, d) = b_temp(st);
    let i = cir::InstrV::Xor { dest: d, lhs: tx, rhs: "true"@ };
    assert(s_emit(funs, st, e) == Ok::<(BuilderV, Seq<char>), CodegenErrorV>((b_push(st1, i), d)));
    let st2 = b_push(st1, i);
    assert(st2.blocks[st.current].instrs == st.blocks[st.current].instrs.push(i));
    law_boolean_connectives(prog, m, d.drop_first(), x, true, fuel);
    assert((x != true) == !x);
}

} // verus!
