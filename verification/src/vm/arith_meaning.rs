//! What the machine's arithmetic and logic instructions compute, stated by
//! their mathematical meaning: `add`, `sub` and `mul` give the exact result
//! wrapped into 32 bits; `sdiv` and `srem` give a quotient and remainder
//! that put the dividend back together, the remainder smaller than the
//! divisor and of the dividend's sign; `and`, `or`, `xor` are the boolean
//! connectives.
use vstd::prelude::*;
use crate::vm::ir::{InstrV, OperandV};
use crate::vm::value::ValueV;
use crate::vm::memory::{MemoryV, mem_set_local};
use crate::vm::linker::LinkedV;
use crate::vm::interpreter::{s_exec_instr, RunErrorV, trunc_div, trunc_rem};

verus! {

/// The number in `[-2^31, 2^31)` that is congruent to `x` modulo `2^32`.
pub open spec fn wrap32(x: int) -> int {
    let r = x % 0x1_0000_0000;
    if r >= 0x8000_0000 { r - 0x1_0000_0000 } else { r }
}

/// Running `dest = k a, b` on two `i32` constants.
pub open spec fn run2(prog: LinkedV, m: MemoryV, i: InstrV, fuel: nat) -> Result<(MemoryV, nat), RunErrorV> {
    s_exec_instr(prog, i, m, fuel)
}

pub open spec fn int_op(a: i32) -> OperandV {
    OperandV::ConstInt(a as i64)
}

proof fn lemma_wrap_in_range(x: int)
    requires
        i32::MIN <= x <= i32::MAX,
    ensures
        wrap32(x) == x,
{
    if x < 0 {
        assert(x % 0x1_0000_0000 == x + 0x1_0000_0000);
    }
}

proof fn lemma_wrap_high(x: int)
    requires
        i32::MAX < x < i32::MAX + 0x1_0000_0000,
    ensures
        wrap32(x) == x - 0x1_0000_0000,
{
    if x >= 0x1_0000_0000 {
        assert(x % 0x1_0000_0000 == x - 0x1_0000_0000);
    }
}

proof fn lemma_wrap_low(x: int)
    requires
        i32::MIN - 0x1_0000_0000 <= x < i32::MIN,
    ensures
        wrap32(x) == x + 0x1_0000_0000,
{
    assert(x % 0x1_0000_0000 == x + 0x2_0000_0000 || x % 0x1_0000_0000 == x + 0x1_0000_0000);
}

/// `add`, `sub` and `mul` of two `i32` constants set the destination to the
/// exact sum, difference or product wrapped into 32 bits, and change
/// nothing else.
pub proof fn law_wrapping_arithmetic(prog: LinkedV, m: MemoryV, dest: Seq<char>, a: i32, b: i32, fuel: nat)
    ensures
        run2(prog, m, InstrV::Add { dest, lhs: int_op(a), rhs: int_op(b) }, fuel)
            == Ok::<(MemoryV, nat), RunErrorV>((mem_set_local(m, dest, ValueV::I32(wrap32(a + b) as i32)), fuel)),
        run2(prog, m, InstrV::Sub { dest, lhs: int_op(a), rhs: int_op(b) }, fuel)
            == Ok::<(MemoryV, nat), RunErrorV>((mem_set_local(m, dest, ValueV::I32(wrap32(a - b) as i32)), fuel)),
        run2(prog, m, InstrV::Mul { dest, lhs: int_op(a), rhs: int_op(b) }, fuel)
            == Ok::<(MemoryV, nat), RunErrorV>((mem_set_local(m, dest, ValueV::I32(wrap32(a * b) as i32)), fuel)),
{
    assert((a as i64) as i32 == a);
    assert((b as i64) as i32 == b);
    let s = a + b;
    if s > i32::MAX {
        lemma_wrap_high(s);
    } else if s < i32::MIN {
        lemma_wrap_low(s);
    } else {
        lemma_wrap_in_range(s);
    }
    let d = a - b;
    if d > i32::MAX {
        lemma_wrap_high(d);
    } else if d < i32::MIN {
        lemma_wrap_low(d);
    } else {
        lemma_wrap_in_range(d);
    }
}

pub open spec fn abs(x: int) -> int {
    if x < 0 { -x } else { x }
}

/// `q` and `r` are the quotient and remainder of `a` by `b` rounded toward
/// zero: they put `a` back together, the remainder is smaller than the
/// divisor, and it is zero or has the dividend's sign.
pub open spec fn quot_rem(a: int, b: int, q: int, r: int) -> bool {
    &&& a == b * q + r
    &&& abs(r) < abs(b)
    &&& (r == 0 || (r < 0) == (a < 0))
}

proof fn lemma_trunc(a: i32, b: i32)
    requires
        b != 0,
        !(a == i32::MIN && b == -1),
    ensures
        i32::MIN <= trunc_div(a as int, b as int) <= i32::MAX,
        i32::MIN <= trunc_rem(a as int, b as int) <= i32::MAX,
        quot_rem(a as int, b as int, trunc_div(a as int, b as int), trunc_rem(a as int, b as int)),
{
    let x = abs(a as int);
    let y = abs(b as int);
    vstd::arithmetic::div_mod::lemma_fundamental_div_mod(x, y);
    vstd::arithmetic::div_mod::lemma_mod_pos_bound(x, y);
    vstd::arithmetic::div_mod::lemma_div_pos_is_pos(x, y);
    let q = x / y;
    let r = x % y;
    assert(q <= x) by (nonlinear_arith)
        requires
            x == y * q + r,
            y >= 1,
            r >= 0,
            q >= 0,
    ;
    assert(y >= 2 ==> q < 0x8000_0000) by (nonlinear_arith)
        requires
            x == y * q + r,
            x <= 0x8000_0000,
            r >= 0,
            q >= 0,
    ;
    assert(trunc_div(a as int, b as int) == if ((a as int) < 0) != ((b as int) < 0) { -q } else { q });
    assert(trunc_rem(a as int, b as int) == if (a as int) < 0 { -r } else { r });
    if (a as int) < 0 {
        if (b as int) < 0 {
            assert(b * q - r == -(y * q + r)) by (nonlinear_arith)
                requires
                    y == -b,
            ;
        } else {
            assert(b * (-q) - r == -(y * q + r)) by (nonlinear_arith)
                requires
                    y == b,
            ;
        }
    } else {
        if (b as int) < 0 {
            assert(b * (-q) + r == y * q + r) by (nonlinear_arith)
                requires
                    y == -b,
            ;
        } else {
            assert(b * q + r == y * q + r);
        }
    }
}

/// `sdiv` and `srem` of two `i32` constants: by zero both fail with a
/// division by zero; `i32::MIN` by `-1`, whose quotient does not fit, fails
/// with an overflow; otherwise they set the destination to a quotient and a
/// remainder rounded toward zero, and change nothing else.
pub proof fn law_truncating_division(prog: LinkedV, m: MemoryV, dest: Seq<char>, a: i32, b: i32, fuel: nat)
    ensures
        b == 0 ==> run2(prog, m, InstrV::SDiv { dest, lhs: int_op(a), rhs: int_op(b) }, fuel)
            == Err::<(MemoryV, nat), RunErrorV>(RunErrorV::DivisionByZero)
            && run2(prog, m, InstrV::SRem { dest, lhs: int_op(a), rhs: int_op(b) }, fuel)
            == Err::<(MemoryV, nat), RunErrorV>(RunErrorV::DivisionByZero),
        b == -1 && a == i32::MIN ==> run2(prog, m, InstrV::SDiv { dest, lhs: int_op(a), rhs: int_op(b) }, fuel)
            == Err::<(MemoryV, nat), RunErrorV>(RunErrorV::DivisionOverflow)
            && run2(prog, m, InstrV::SRem { dest, lhs: int_op(a), rhs: int_op(b) }, fuel)
            == Err::<(MemoryV, nat), RunErrorV>(RunErrorV::DivisionOverflow),
        b != 0 && !(b == -1 && a == i32::MIN) ==> exists|q: i32, r: i32|
            run2(prog, m, InstrV::SDiv { dest, lhs: int_op(a), rhs: int_op(b) }, fuel)
                == Ok::<(MemoryV, nat), RunErrorV>((mem_set_local(m, dest, ValueV::I32(q)), fuel))
            && run2(prog, m, InstrV::SRem { dest, lhs: int_op(a), rhs: int_op(b) }, fuel)
                == Ok::<(MemoryV, nat), RunErrorV>((mem_set_local(m, dest, ValueV::I32(r)), fuel))
            && quot_rem(a as int, b as int, q as int, r as int),
{
    assert((a as i64) as i32 == a);
    assert((b as i64) as i32 == b);
    if b != 0 && !(b == -1 && a == i32::MIN) {
        lemma_trunc(a, b);
        let q = trunc_div(a as int, b as int) as i32;
        let r = trunc_rem(a as int, b as int) as i32;
        assert(q as int == trunc_div(a as int, b as int));
        assert(r as int == trunc_rem(a as int, b as int));
        assert(run2(prog, m, InstrV::SDiv { dest, lhs: int_op(a), rhs: int_op(b) }, fuel)
            == Ok::<(MemoryV, nat), RunErrorV>((mem_set_local(m, dest, ValueV::I32(q)), fuel)));
        assert(run2(prog, m, InstrV::SRem { dest, lhs: int_op(a), rhs: int_op(b) }, fuel)
            == Ok::<(MemoryV, nat), RunErrorV>((mem_set_local(m, dest, ValueV::I32(r)), fuel)));
    }
}

/// `and`, `or` and `xor` of two `i1` constants set the destination to the
/// conjunction, disjunction and exclusive or of the two truth values.
pub proof fn law_boolean_connectives(prog: LinkedV, m: MemoryV, dest: Seq<char>, x: bool, y: bool, fuel: nat)
    ensures
        run2(prog, m, InstrV::And { dest, lhs: OperandV::ConstBool(x), rhs: OperandV::ConstBool(y) }, fuel)
            == Ok::<(MemoryV, nat), RunErrorV>((mem_set_local(m, dest, ValueV::I1(x && y)), fuel)),
        run2(prog, m, InstrV::Or { dest, lhs: OperandV::ConstBool(x), rhs: OperandV::ConstBool(y) }, fuel)
            == Ok::<(MemoryV, nat), RunErrorV>((mem_set_local(m, dest, ValueV::I1(x || y)), fuel)),
        run2(prog, m, InstrV::Xor { dest, lhs: OperandV::ConstBool(x), rhs: OperandV::ConstBool(y) }, fuel)
            == Ok::<(MemoryV, nat), RunErrorV>((mem_set_local(m, dest, ValueV::I1(x != y)), fuel)),
{
}

} // verus!
