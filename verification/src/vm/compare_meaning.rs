//! What an `icmp` means: each predicate keyword of LLVM IR is read as the
//! predicate of that name, and comparing two `i32`s by it gives the
//! relation that LLVM IR defines for the keyword.
use vstd::prelude::*;
use crate::vm::ir::{ICmpPred, InstrV, OperandV};
use crate::vm::value::ValueV;
use crate::vm::memory::{MemoryV, mem_set_local};
use crate::vm::linker::LinkedV;
use crate::vm::reader::spec_parse_predicate;
use crate::vm::interpreter::{s_compare, s_exec_instr, RunErrorV};

verus! {

/// The keyword that names a predicate in LLVM IR text.
pub open spec fn keyword(p: ICmpPred) -> Seq<char> {
    match p {
        ICmpPred::EQ => "eq"@,
        ICmpPred::NE => "ne"@,
        ICmpPred::SGT => "sgt"@,
        ICmpPred::SGE => "sge"@,
        ICmpPred::SLT => "slt"@,
        ICmpPred::SLE => "sle"@,
        ICmpPred::UGT => "ugt"@,
        ICmpPred::UGE => "uge"@,
        ICmpPred::ULT => "ult"@,
        ICmpPred::ULE => "ule"@,
    }
}

/// The 32-bit pattern of `a` read as an unsigned number.
pub open spec fn bits32(a: int) -> int {
    if a < 0 { a + 0x1_0000_0000 } else { a }
}

/// The relation that LLVM IR gives an `icmp` keyword on two `i32` values:
/// `eq`/`ne` compare for equality, the `s` orders compare the signed values,
/// the `u` orders compare the bit patterns as unsigned numbers.
pub open spec fn llvm_relation(kw: Seq<char>, a: int, b: int) -> bool {
    if kw == "eq"@ {
        a == b
    } else if kw == "ne"@ {
        a != b
    } else if kw == "sgt"@ {
        a > b
    } else if kw == "sge"@ {
        a >= b
    } else if kw == "slt"@ {
        a < b
    } else if kw == "sle"@ {
        a <= b
    } else if kw == "ugt"@ {
        bits32(a) > bits32(b)
    } else if kw == "uge"@ {
        bits32(a) >= bits32(b)
    } else if kw == "ult"@ {
        bits32(a) < bits32(b)
    } else {
        bits32(a) <= bits32(b)
    }
}

proof fn lemma_keywords_differ()
    ensures
        forall|p: ICmpPred, q: ICmpPred| p != q ==> keyword(p) != keyword(q),
{
    reveal_strlit("eq");
    reveal_strlit("ne");
    reveal_strlit("sgt");
    reveal_strlit("sge");
    reveal_strlit("slt");
    reveal_strlit("sle");
    reveal_strlit("ugt");
    reveal_strlit("uge");
    reveal_strlit("ult");
    reveal_strlit("ule");
    assert forall|p: ICmpPred, q: ICmpPred| p != q implies keyword(p) != keyword(q) by {
        let a = keyword(p);
        let b = keyword(q);
        if a.len() == b.len() {
            assert(a[0] != b[0] || a[1] != b[1] || a[a.len() - 1] != b[b.len() - 1]);
        }
    }
}

proof fn lemma_keyword_reads(p: ICmpPred)
    ensures
        spec_parse_predicate(keyword(p)) == Ok::<ICmpPred, crate::vm::reader::IrErr>(p),
{
    lemma_keywords_differ();
    assert(keyword(ICmpPred::EQ) == "eq"@);
    assert(keyword(ICmpPred::NE) == "ne"@);
    assert(keyword(ICmpPred::SGT) == "sgt"@);
    assert(keyword(ICmpPred::SGE) == "sge"@);
    assert(keyword(ICmpPred::SLT) == "slt"@);
    assert(keyword(ICmpPred::SLE) == "sle"@);
    assert(keyword(ICmpPred::UGT) == "ugt"@);
    assert(keyword(ICmpPred::UGE) == "uge"@);
    assert(keyword(ICmpPred::ULT) == "ult"@);
    assert(keyword(ICmpPred::ULE) == "ule"@);
    match p {
        ICmpPred::EQ => {},
        ICmpPred::NE => { assert(keyword(ICmpPred::NE) != keyword(ICmpPred::EQ)); },
        ICmpPred::SGT => {
            assert(keyword(ICmpPred::SGT) != keyword(ICmpPred::EQ));
            assert(keyword(ICmpPred::SGT) != keyword(ICmpPred::NE));
        },
        ICmpPred::SGE => {
            assert(keyword(ICmpPred::SGE) != keyword(ICmpPred::EQ));
            assert(keyword(ICmpPred::SGE) != keyword(ICmpPred::NE));
            assert(keyword(ICmpPred::SGE) != keyword(ICmpPred::SGT));
        },
        ICmpPred::SLT => {
            assert(keyword(ICmpPred::SLT) != keyword(ICmpPred::EQ));
            assert(keyword(ICmpPred::SLT) != keyword(ICmpPred::NE));
            assert(keyword(ICmpPred::SLT) != keyword(ICmpPred::SGT));
            assert(keyword(ICmpPred::SLT) != keyword(ICmpPred::SGE));
        },
        ICmpPred::SLE => {
            assert(keyword(ICmpPred::SLE) != keyword(ICmpPred::EQ));
            assert(keyword(ICmpPred::SLE) != keyword(ICmpPred::NE));
            assert(keyword(ICmpPred::SLE) != keyword(ICmpPred::SGT));
            assert(keyword(ICmpPred::SLE) != keyword(ICmpPred::SGE));
            assert(keyword(ICmpPred::SLE) != keyword(ICmpPred::SLT));
        },
        ICmpPred::UGT => {
            assert(keyword(ICmpPred::UGT) != keyword(ICmpPred::EQ));
            assert(keyword(ICmpPred::UGT) != keyword(ICmpPred::NE));
            assert(keyword(ICmpPred::UGT) != keyword(ICmpPred::SGT));
            assert(keyword(ICmpPred::UGT) != keyword(ICmpPred::SGE));
            assert(keyword(ICmpPred::UGT) != keyword(ICmpPred::SLT));
            assert(keyword(ICmpPred::UGT) != keyword(ICmpPred::SLE));
        },
        ICmpPred::UGE => {
            assert(keyword(ICmpPred::UGE) != keyword(ICmpPred::EQ));
            assert(keyword(ICmpPred::UGE) != keyword(ICmpPred::NE));
            assert(keyword(ICmpPred::UGE) != keyword(ICmpPred::SGT));
            assert(keyword(ICmpPred::UGE) != keyword(ICmpPred::SGE));
            assert(keyword(ICmpPred::UGE) != keyword(ICmpPred::SLT));
            assert(keyword(ICmpPred::UGE) != keyword(ICmpPred::SLE));
            assert(keyword(ICmpPred::UGE) != keyword(ICmpPred::UGT));
        },
        ICmpPred::ULT => {
            assert(keyword(ICmpPred::ULT) != keyword(ICmpPred::EQ));
            assert(keyword(ICmpPred::ULT) != keyword(ICmpPred::NE));
            assert(keyword(ICmpPred::ULT) != keyword(ICmpPred::SGT));
            assert(keyword(ICmpPred::ULT) != keyword(ICmpPred::SGE));
            assert(keyword(ICmpPred::ULT) != keyword(ICmpPred::SLT));
            assert(keyword(ICmpPred::ULT) != keyword(ICmpPred::SLE));
            assert(keyword(ICmpPred::ULT) != keyword(ICmpPred::UGT));
            assert(keyword(ICmpPred::ULT) != keyword(ICmpPred::UGE));
        },
        ICmpPred::ULE => {
            assert(keyword(ICmpPred::ULE) != keyword(ICmpPred::EQ));
            assert(keyword(ICmpPred::ULE) != keyword(ICmpPred::NE));
            assert(keyword(ICmpPred::ULE) != keyword(ICmpPred::SGT));
            assert(keyword(ICmpPred::ULE) != keyword(ICmpPred::SGE));
            assert(keyword(ICmpPred::ULE) != keyword(ICmpPred::SLT));
            assert(keyword(ICmpPred::ULE) != keyword(ICmpPred::SLE));
            assert(keyword(ICmpPred::ULE) != keyword(ICmpPred::UGT));
            assert(keyword(ICmpPred::ULE) != keyword(ICmpPred::UGE));
            assert(keyword(ICmpPred::ULE) != keyword(ICmpPred::ULT));
        },
    }
}

/// Reading a predicate keyword gives the predicate of that name, and only
/// a predicate's own keyword reads as it: what is read prints back as the
/// text it was read from.
pub proof fn law_predicate_keywords_read_back(p: ICmpPred, s: Seq<char>)
    ensures
        spec_parse_predicate(keyword(p)) == Ok::<ICmpPred, crate::vm::reader::IrErr>(p),
        spec_parse_predicate(s) matches Ok(q) ==> s == keyword(q),
{
    lemma_keywords_differ();
    lemma_keyword_reads(p);
    reveal_strlit("eq");
    reveal_strlit("ne");
    reveal_strlit("sgt");
    reveal_strlit("sge");
    reveal_strlit("slt");
    reveal_strlit("sle");
    reveal_strlit("ugt");
    reveal_strlit("uge");
    reveal_strlit("ult");
    reveal_strlit("ule");
}

/// Comparing two `i32`s by the predicate read from a keyword gives the
/// relation LLVM IR defines for that keyword: signed orders compare the
/// signed values, unsigned orders the bit patterns.
pub proof fn law_comparison_as_llvm(kw: Seq<char>, a: i32, b: i32)
    requires
        spec_parse_predicate(kw) is Ok,
    ensures
        s_compare(spec_parse_predicate(kw)->Ok_0, ValueV::I32(a), ValueV::I32(b))
            == Ok::<bool, RunErrorV>(llvm_relation(kw, a as int, b as int)),
{
    law_predicate_keywords_read_back(spec_parse_predicate(kw)->Ok_0, kw);
    lemma_keywords_differ();
    reveal_strlit("eq");
    reveal_strlit("ne");
    reveal_strlit("sgt");
    reveal_strlit("sge");
    reveal_strlit("slt");
    reveal_strlit("sle");
    reveal_strlit("ugt");
    reveal_strlit("uge");
    reveal_strlit("ult");
    reveal_strlit("ule");
}

/// Running an `icmp` of two `i32` constants sets its destination to the
/// LLVM IR relation of its keyword, and changes nothing else.
pub proof fn law_comparison_instruction_runs_as_llvm(
    prog: LinkedV,
    m: MemoryV,
    dest: Seq<char>,
    kw: Seq<char>,
    a: i32,
    b: i32,
    fuel: nat,
)
    requires
        spec_parse_predicate(kw) is Ok,
    ensures
        s_exec_instr(
            prog,
            InstrV::ICmp { dest, pred: spec_parse_predicate(kw)->Ok_0, lhs: OperandV::ConstInt(a as i64), rhs: OperandV::ConstInt(b as i64) },
            m,
            fuel,
        ) == Ok::<(MemoryV, nat), RunErrorV>((mem_set_local(m, dest, ValueV::I1(llvm_relation(kw, a as int, b as int))), fuel)),
{
    law_comparison_as_llvm(kw, a, b);
    assert((a as i64) as i32 == a);
    assert((b as i64) as i32 == b);
}

} // verus!
