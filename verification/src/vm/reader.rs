//! The reader of LLVM IR text: the line-oriented subset that the virtual
//! machine runs. Each part of a line is read by a function with an exact
//! contract over the spec functions below.
use vstd::prelude::*;
use crate::text::{str_chars, string_from_chars};
use crate::vm::chars::{
    trim, first_piece, find, rfind, starts_with, strip_prefix, trim_start_matches,
    trim_end_matches, split_once, second_piece, split, first_word, second_word, lines,
    parse_i64, lemma_find_bounds, lemma_rfind_bounds, lemma_first_word_len, sub_chars, trim_chars, find_char, rfind_char, starts_with_str,
    eq_str, strip_prefix_str, trim_start_matches_char, trim_end_matches_char, split_once_char,
    first_piece_chars, split_chars, first_word_chars, second_word_chars, lines_chars,
    parse_i64_chars,
};
use crate::vm::ir::{
    Module, ModuleRef, ModuleV, Function, FunctionV, Param, ParamV, BasicBlock, BasicBlockV,
    Type, Operand, OperandV, ICmpPred, Instr, InstrV, Terminator, TerminatorV, params_v,
    blocks_v, instrs_v, functions_v,
};

verus! {

/// Why a text could not be read as a module.
#[derive(Debug)]
pub enum IrParseError {
    InstructionOutsideBlock,
    UnterminatedFunction,
    InvalidDefine,
    MissingFunctionName,
    MissingLParen,
    MissingRParen,
    /// The parameter list closes before it opens.
    MisplacedRParen,
    BadParam,
    BadParamName,
    UnsupportedType(String),
    ExpectedAssignment,
    UnsupportedInstruction(String),
    BadBinop,
    MissingPredicate,
    UnsupportedPredicate(String),
    CallMissingAt,
    CallMissingLParen,
    CallMissingRParen,
    /// The argument list of a call closes before it opens.
    CallMisplacedRParen,
    BadCallArg,
    BadCallArgValue,
    BadLoad,
    BadPhi,
    BadPhiIncoming,
    MissingType,
    BadStore,
    BadCondBr,
    BadTrueDest,
    BadFalseDest,
    UnsupportedBr(String),
    ExpectedTwoOperands,
    BadInt(String),
}

pub enum IrErr {
    InstructionOutsideBlock,
    UnterminatedFunction,
    InvalidDefine,
    MissingFunctionName,
    MissingLParen,
    MissingRParen,
    MisplacedRParen,
    BadParam,
    BadParamName,
    UnsupportedType(Seq<char>),
    ExpectedAssignment,
    UnsupportedInstruction(Seq<char>),
    BadBinop,
    MissingPredicate,
    UnsupportedPredicate(Seq<char>),
    CallMissingAt,
    CallMissingLParen,
    CallMissingRParen,
    CallMisplacedRParen,
    BadCallArg,
    BadCallArgValue,
    BadLoad,
    BadPhi,
    BadPhiIncoming,
    MissingType,
    BadStore,
    BadCondBr,
    BadTrueDest,
    BadFalseDest,
    UnsupportedBr(Seq<char>),
    ExpectedTwoOperands,
    BadInt(Seq<char>),
}

impl View for IrParseError {
    type V = IrErr;

    open spec fn view(&self) -> IrErr {
        match self {
            IrParseError::InstructionOutsideBlock => IrErr::InstructionOutsideBlock,
            IrParseError::UnterminatedFunction => IrErr::UnterminatedFunction,
            IrParseError::InvalidDefine => IrErr::InvalidDefine,
            IrParseError::MissingFunctionName => IrErr::MissingFunctionName,
            IrParseError::MissingLParen => IrErr::MissingLParen,
            IrParseError::MissingRParen => IrErr::MissingRParen,
            IrParseError::MisplacedRParen => IrErr::MisplacedRParen,
            IrParseError::BadParam => IrErr::BadParam,
            IrParseError::BadParamName => IrErr::BadParamName,
            IrParseError::UnsupportedType(s) => IrErr::UnsupportedType(s@),
            IrParseError::ExpectedAssignment => IrErr::ExpectedAssignment,
            IrParseError::UnsupportedInstruction(s) => IrErr::UnsupportedInstruction(s@),
            IrParseError::BadBinop => IrErr::BadBinop,
            IrParseError::MissingPredicate => IrErr::MissingPredicate,
            IrParseError::UnsupportedPredicate(s) => IrErr::UnsupportedPredicate(s@),
            IrParseError::CallMissingAt => IrErr::CallMissingAt,
            IrParseError::CallMissingLParen => IrErr::CallMissingLParen,
            IrParseError::CallMissingRParen => IrErr::CallMissingRParen,
            IrParseError::CallMisplacedRParen => IrErr::CallMisplacedRParen,
            IrParseError::BadCallArg => IrErr::BadCallArg,
            IrParseError::BadCallArgValue => IrErr::BadCallArgValue,
            IrParseError::BadLoad => IrErr::BadLoad,
            IrParseError::BadPhi => IrErr::BadPhi,
            IrParseError::BadPhiIncoming => IrErr::BadPhiIncoming,
            IrParseError::MissingType => IrErr::MissingType,
            IrParseError::BadStore => IrErr::BadStore,
            IrParseError::BadCondBr => IrErr::BadCondBr,
            IrParseError::BadTrueDest => IrErr::BadTrueDest,
            IrParseError::BadFalseDest => IrErr::BadFalseDest,
            IrParseError::UnsupportedBr(s) => IrErr::UnsupportedBr(s@),
            IrParseError::ExpectedTwoOperands => IrErr::ExpectedTwoOperands,
            IrParseError::BadInt(s) => IrErr::BadInt(s@),
        }
    }
}

// ---------------------------------------------------------------------------
// The reading of each part, as spec functions over character sequences.
// ---------------------------------------------------------------------------

/// `s` with the characters of `p` dropped from its front.
pub open spec fn drop_prefix(s: Seq<char>, p: Seq<char>) -> Seq<char> {
    s.skip(p.len() as int)
}

/// A line without its `;` comment and surrounding whitespace.
pub open spec fn clean_line(l: Seq<char>) -> Seq<char> {
    trim(first_piece(l, ';'))
}

pub open spec fn spec_parse_type(s: Seq<char>) -> Result<Type, IrErr> {
    if s == "i1"@ {
        Ok(Type::I1)
    } else if s == "i32"@ {
        Ok(Type::I32)
    } else if s == "i64"@ {
        Ok(Type::I64)
    } else if s == "void"@ {
        Ok(Type::Void)
    } else {
        Err(IrErr::UnsupportedType(s))
    }
}

pub open spec fn spec_parse_predicate(s: Seq<char>) -> Result<ICmpPred, IrErr> {
    if s == "eq"@ {
        Ok(ICmpPred::EQ)
    } else if s == "ne"@ {
        Ok(ICmpPred::NE)
    } else if s == "sgt"@ {
        Ok(ICmpPred::SGT)
    } else if s == "sge"@ {
        Ok(ICmpPred::SGE)
    } else if s == "slt"@ {
        Ok(ICmpPred::SLT)
    } else if s == "sle"@ {
        Ok(ICmpPred::SLE)
    } else if s == "ugt"@ {
        Ok(ICmpPred::UGT)
    } else if s == "uge"@ {
        Ok(ICmpPred::UGE)
    } else if s == "ult"@ {
        Ok(ICmpPred::ULT)
    } else if s == "ule"@ {
        Ok(ICmpPred::ULE)
    } else {
        Err(IrErr::UnsupportedPredicate(s))
    }
}

/// An operand: `%name` (every leading `%` dropped), `true`, `false`, or a
/// decimal `i64`.
pub open spec fn spec_parse_operand(s: Seq<char>) -> Result<OperandV, IrErr> {
    let t = trim(s);
    if t.len() > 0 && t[0] == '%' {
        Ok(OperandV::Local(trim_start_matches(t, '%')))
    } else if t == "true"@ {
        Ok(OperandV::ConstBool(true))
    } else if t == "false"@ {
        Ok(OperandV::ConstBool(false))
    } else {
        match parse_i64(t) {
            Some(v) => Ok(OperandV::ConstInt(v)),
            None => Err(IrErr::BadInt(t)),
        }
    }
}

/// `s` without its first word (a type), trimmed.
pub open spec fn spec_strip_type_prefix(s: Seq<char>) -> Result<Seq<char>, IrErr> {
    match first_word(s) {
        Some(w) => Ok(trim(s.skip(w.len() as int))),
        None => Err(IrErr::MissingType),
    }
}

/// `s` without a leading `i32 `, `i1 ` or `void ` type.
pub open spec fn spec_strip_type_prefix_any(s: Seq<char>) -> Result<Seq<char>, IrErr> {
    if starts_with(s, "i32 "@) || starts_with(s, "i1 "@) || starts_with(s, "void "@) {
        spec_strip_type_prefix(s)
    } else {
        Ok(s)
    }
}

pub open spec fn spec_parse_two_operands(s: Seq<char>) -> Result<(OperandV, OperandV), IrErr> {
    match split_once(s, ',') {
        None => Err(IrErr::ExpectedTwoOperands),
        Some((a, b)) => match spec_parse_operand(trim(a)) {
            Err(e) => Err(e),
            Ok(x) => match spec_parse_operand(trim(b)) {
                Err(e) => Err(e),
                Ok(y) => Ok((x, y)),
            },
        },
    }
}


/// Which two-operand instruction a mnemonic names.
#[derive(Clone, Copy, PartialEq, Eq, Structural)]
pub enum BinKind {
    Add,
    Sub,
    Mul,
    SDiv,
    SRem,
    And,
    Or,
    Xor,
}

pub open spec fn bin_instr(k: BinKind, dest: Seq<char>, lhs: OperandV, rhs: OperandV) -> InstrV {
    match k {
        BinKind::Add => InstrV::Add { dest, lhs, rhs },
        BinKind::Sub => InstrV::Sub { dest, lhs, rhs },
        BinKind::Mul => InstrV::Mul { dest, lhs, rhs },
        BinKind::SDiv => InstrV::SDiv { dest, lhs, rhs },
        BinKind::SRem => InstrV::SRem { dest, lhs, rhs },
        BinKind::And => InstrV::And { dest, lhs, rhs },
        BinKind::Or => InstrV::Or { dest, lhs, rhs },
        BinKind::Xor => InstrV::Xor { dest, lhs, rhs },
    }
}

/// `op ty a, b` after the `=` of an assignment.
pub open spec fn spec_parse_binop(rest: Seq<char>, op: Seq<char>, k: BinKind, dest: Seq<char>) -> Result<InstrV, IrErr> {
    match strip_prefix(rest, op) {
        None => Err(IrErr::BadBinop),
        Some(after) => match spec_strip_type_prefix_any(trim(after)) {
            Err(e) => Err(e),
            Ok(a) => match spec_parse_two_operands(a) {
                Err(e) => Err(e),
                Ok((lhs, rhs)) => Ok(bin_instr(k, dest, lhs, rhs)),
            },
        },
    }
}

/// `icmp pred ty a, b`.
pub open spec fn spec_parse_icmp(rest: Seq<char>, dest: Seq<char>) -> Result<InstrV, IrErr> {
    let after = trim(drop_prefix(rest, "icmp "@));
    match first_word(after) {
        None => Err(IrErr::MissingPredicate),
        Some(w) => match spec_parse_predicate(w) {
            Err(e) => Err(e),
            Ok(pred) => match spec_strip_type_prefix_any(trim(drop_prefix(after, w))) {
                Err(e) => Err(e),
                Ok(a) => match spec_parse_two_operands(a) {
                    Err(e) => Err(e),
                    Ok((lhs, rhs)) => Ok(InstrV::ICmp { dest, pred, lhs, rhs }),
                },
            },
        },
    }
}

/// The arguments of a call, each `ty value`, in order.
pub open spec fn spec_call_args(parts: Seq<Seq<char>>) -> Result<Seq<OperandV>, IrErr>
    decreases parts.len(),
{
    if parts.len() == 0 {
        Ok(seq![])
    } else {
        let p = trim(parts[0]);
        match first_word(p) {
            None => Err(IrErr::BadCallArg),
            Some(_) => match second_word(p) {
                None => Err(IrErr::BadCallArgValue),
                Some(v) => match spec_parse_operand(v) {
                    Err(e) => Err(e),
                    Ok(o) => match spec_call_args(parts.drop_first()) {
                        Err(e) => Err(e),
                        Ok(os) => Ok(seq![o] + os),
                    },
                },
            },
        }
    }
}

/// `call ty @f(ty a, ...)`.
pub open spec fn spec_parse_call(rest: Seq<char>, dest: Option<Seq<char>>) -> Result<InstrV, IrErr> {
    match spec_strip_type_prefix_any(trim(drop_prefix(rest, "call "@))) {
        Err(e) => Err(e),
        Ok(after) => match find(after, '@') {
            None => Err(IrErr::CallMissingAt),
            Some(at) => {
                let after_at = after.skip(at + 1);
                match find(after_at, '(') {
                    None => Err(IrErr::CallMissingLParen),
                    Some(lp) => match rfind(after_at, ')') {
                        None => Err(IrErr::CallMissingRParen),
                        Some(rp) => if rp < lp {
                            Err(IrErr::CallMisplacedRParen)
                        } else {
                            let func = trim(after_at.take(lp));
                            let args_str = trim(after_at.subrange(lp + 1, rp));
                            if args_str.len() == 0 {
                                Ok(InstrV::Call { dest, func, args: seq![] })
                            } else {
                                match spec_call_args(split(args_str, ',')) {
                                    Err(e) => Err(e),
                                    Ok(args) => Ok(InstrV::Call { dest, func, args }),
                                }
                            }
                        },
                    },
                }
            },
        },
    }
}

/// A pointer operand without a leading `i32*`, `i1*` or `void*`.
pub open spec fn strip_ptr_type(s: Seq<char>) -> Seq<char> {
    match strip_prefix(s, "i32*"@) {
        Some(t) => t,
        None => match strip_prefix(s, "i1*"@) {
            Some(t) => t,
            None => match strip_prefix(s, "void*"@) {
                Some(t) => t,
                None => s,
            },
        },
    }
}

/// `load ty, ty* %p`.
pub open spec fn spec_parse_load(rest: Seq<char>, dest: Seq<char>) -> Result<InstrV, IrErr> {
    match split_once(trim(drop_prefix(rest, "load "@)), ',') {
        None => Err(IrErr::BadLoad),
        Some((_, p)) => match spec_parse_operand(trim(strip_ptr_type(trim(p)))) {
            Err(e) => Err(e),
            Ok(ptr) => Ok(InstrV::Load { dest, ptr }),
        },
    }
}

/// The `[ value, %label ]` pairs of a phi, in order.
pub open spec fn spec_phi_incomings(s: Seq<char>) -> Result<Seq<(OperandV, Seq<char>)>, IrErr>
    decreases s.len(),
{
    match find(s, '[') {
        None => Ok(seq![]),
        Some(start) => match find(s.skip(start), ']') {
            None => Err(IrErr::BadPhi),
            Some(off) => {
                let end = start + off;
                if 0 <= start && 0 <= off && end < s.len() {
                    let chunk = trim(s.subrange(start + 1, end));
                    match second_piece(chunk, ',') {
                        None => Err(IrErr::BadPhiIncoming),
                        Some(bb) => match spec_parse_operand(trim(first_piece(chunk, ','))) {
                            Err(e) => Err(e),
                            Ok(v) => match spec_phi_incomings(s.skip(end + 1)) {
                                Err(e) => Err(e),
                                Ok(more) => Ok(seq![(v, trim_start_matches(trim(bb), '%'))] + more),
                            },
                        },
                    }
                } else {
                    Err(IrErr::BadPhi)
                }
            },
        },
    }
}

/// A phi type (`i32`, `i1` or `void`) dropped, if present.
pub open spec fn strip_phi_type(s: Seq<char>) -> Seq<char> {
    match strip_prefix(s, "i32"@) {
        Some(t) => t,
        None => match strip_prefix(s, "i1"@) {
            Some(t) => t,
            None => match strip_prefix(s, "void"@) {
                Some(t) => t,
                None => s,
            },
        },
    }
}

/// `phi ty [ a, %l ], ...`.
pub open spec fn spec_parse_phi(rest: Seq<char>, dest: Seq<char>) -> Result<InstrV, IrErr> {
    match spec_phi_incomings(trim(strip_phi_type(trim(drop_prefix(rest, "phi "@))))) {
        Err(e) => Err(e),
        Ok(incomings) => Ok(InstrV::Phi { dest, incomings }),
    }
}

/// An assignment `%d = ...`.
pub open spec fn spec_parse_instruction(line: Seq<char>) -> Result<InstrV, IrErr> {
    match split_once(line, '=') {
        None => Err(IrErr::ExpectedAssignment),
        Some((d, r)) => {
            let dest = trim_start_matches(trim(d), '%');
            let rest = trim(r);
            if starts_with(rest, "add "@) {
                spec_parse_binop(rest, "add"@, BinKind::Add, dest)
            } else if starts_with(rest, "sub "@) {
                spec_parse_binop(rest, "sub"@, BinKind::Sub, dest)
            } else if starts_with(rest, "mul "@) {
                spec_parse_binop(rest, "mul"@, BinKind::Mul, dest)
            } else if starts_with(rest, "sdiv "@) {
                spec_parse_binop(rest, "sdiv"@, BinKind::SDiv, dest)
            } else if starts_with(rest, "srem "@) {
                spec_parse_binop(rest, "srem"@, BinKind::SRem, dest)
            } else if starts_with(rest, "and "@) {
                spec_parse_binop(rest, "and"@, BinKind::And, dest)
            } else if starts_with(rest, "or "@) {
                spec_parse_binop(rest, "or"@, BinKind::Or, dest)
            } else if starts_with(rest, "xor "@) {
                spec_parse_binop(rest, "xor"@, BinKind::Xor, dest)
            } else if starts_with(rest, "icmp "@) {
                spec_parse_icmp(rest, dest)
            } else if starts_with(rest, "call "@) {
                spec_parse_call(rest, Some(dest))
            } else if starts_with(rest, "alloca "@) {
                Ok(InstrV::Alloca { dest })
            } else if starts_with(rest, "load "@) {
                spec_parse_load(rest, dest)
            } else if starts_with(rest, "phi "@) {
                spec_parse_phi(rest, dest)
            } else {
                Err(IrErr::UnsupportedInstruction(line))
            }
        },
    }
}

/// `ret ty v`.
pub open spec fn spec_parse_ret(line: Seq<char>) -> Result<TerminatorV, IrErr> {
    match spec_strip_type_prefix(trim(drop_prefix(line, "ret "@))) {
        Err(e) => Err(e),
        Ok(a) => match spec_parse_operand(a) {
            Err(e) => Err(e),
            Ok(value) => Ok(TerminatorV::Ret { value }),
        },
    }
}

/// `store ty v, ty* %p`.
pub open spec fn spec_parse_store(line: Seq<char>) -> Result<InstrV, IrErr> {
    match split_once(trim(drop_prefix(line, "store "@)), ',') {
        None => Err(IrErr::BadStore),
        Some((v, r)) => {
            let ptr_str = trim(strip_ptr_type(trim(r)));
            match spec_strip_type_prefix_any(trim(v)) {
                Err(e) => Err(e),
                Ok(vs) => match spec_parse_operand(trim(vs)) {
                    Err(e) => Err(e),
                    Ok(value) => match spec_parse_operand(ptr_str) {
                        Err(e) => Err(e),
                        Ok(ptr) => Ok(InstrV::Store { value, ptr }),
                    },
                },
            }
        },
    }
}

/// A branch target `label %name`, as the name.
pub open spec fn label_target(s: Seq<char>) -> Seq<char> {
    trim_start_matches(trim(s), '%')
}

/// `br label %l` or `br i1 c, label %t, label %f`.
pub open spec fn spec_parse_br(line: Seq<char>) -> Result<TerminatorV, IrErr> {
    let after = trim(drop_prefix(line, "br "@));
    if starts_with(after, "label "@) {
        Ok(TerminatorV::Br { dest: label_target(drop_prefix(after, "label "@)) })
    } else if starts_with(after, "i1 "@) {
        match split_once(trim(drop_prefix(after, "i1 "@)), ',') {
            None => Err(IrErr::BadCondBr),
            Some((c, r)) => match spec_parse_operand(trim(c)) {
                Err(e) => Err(e),
                Ok(cond) => {
                    let rest = trim(r);
                    let t = trim(first_piece(rest, ','));
                    match second_piece(rest, ',') {
                        None => Err(IrErr::BadCondBr),
                        Some(f) => match strip_prefix(t, "label "@) {
                            None => Err(IrErr::BadTrueDest),
                            Some(t2) => match strip_prefix(trim(f), "label "@) {
                                None => Err(IrErr::BadFalseDest),
                                Some(f2) => Ok(TerminatorV::CondBr {
                                    cond,
                                    then_dest: label_target(t2),
                                    else_dest: label_target(f2),
                                }),
                            },
                        },
                    }
                },
            },
        }
    } else {
        Err(IrErr::UnsupportedBr(line))
    }
}


/// The parameters of a definition, each `ty %name`, in order.
pub open spec fn spec_params(parts: Seq<Seq<char>>) -> Result<Seq<ParamV>, IrErr>
    decreases parts.len(),
{
    if parts.len() == 0 {
        Ok(seq![])
    } else {
        let p = trim(parts[0]);
        match first_word(p) {
            None => Err(IrErr::BadParam),
            Some(ty) => match second_word(p) {
                None => Err(IrErr::BadParamName),
                Some(n) => match spec_parse_type(ty) {
                    Err(e) => Err(e),
                    Ok(t) => match spec_params(parts.drop_first()) {
                        Err(e) => Err(e),
                        Ok(ps) => Ok(seq![ParamV { name: trim_start_matches(n, '%'), ty: t }] + ps),
                    },
                },
            },
        }
    }
}

/// `define ty @name(params) {`: the name, the parameters and the return type.
pub open spec fn spec_parse_signature(line: Seq<char>) -> Result<(Seq<char>, Seq<ParamV>, Type), IrErr> {
    match strip_prefix(line, "define "@) {
        None => Err(IrErr::InvalidDefine),
        Some(rest) => match find(rest, '@') {
            None => Err(IrErr::MissingFunctionName),
            Some(at) => match spec_parse_type(trim(rest.take(at))) {
                Err(e) => Err(e),
                Ok(rt) => {
                    let after_at = rest.skip(at + 1);
                    match find(after_at, '(') {
                        None => Err(IrErr::MissingLParen),
                        Some(lp) => match find(after_at, ')') {
                            None => Err(IrErr::MissingRParen),
                            Some(rp) => if rp < lp {
                                Err(IrErr::MisplacedRParen)
                            } else {
                                let name = trim(after_at.take(lp));
                                let ps = trim(after_at.subrange(lp + 1, rp));
                                if ps.len() == 0 {
                                    Ok((name, seq![], rt))
                                } else {
                                    match spec_params(split(ps, ',')) {
                                        Err(e) => Err(e),
                                        Ok(params) => Ok((name, params, rt)),
                                    }
                                }
                            },
                        },
                    }
                },
            },
        },
    }
}

/// A function whose closing `}` has not been read yet.
pub struct PendingV {
    pub name: Seq<char>,
    pub params: Seq<ParamV>,
    pub return_type: Type,
    pub blocks: Seq<BasicBlockV>,
    pub current: Option<BasicBlockV>,
}

/// The blocks read so far, the current one included.
pub open spec fn all_blocks(p: PendingV) -> Seq<BasicBlockV> {
    match p.current {
        Some(b) => p.blocks.push(b),
        None => p.blocks,
    }
}

/// A block as a label line opens it: no instructions, no terminator yet.
pub open spec fn fresh_block(name: Seq<char>) -> BasicBlockV {
    BasicBlockV { name, instrs: seq![], term: TerminatorV::Br { dest: "__unset__"@ } }
}

pub open spec fn with_current(p: PendingV, b: BasicBlockV) -> PendingV {
    PendingV { name: p.name, params: p.params, return_type: p.return_type, blocks: p.blocks, current: Some(b) }
}

/// One cleaned line read in a state (`None` outside a function): the next
/// state, and the function that the line completes.
pub open spec fn spec_read_line(st: Option<PendingV>, l: Seq<char>) -> Result<(Option<PendingV>, Option<FunctionV>), IrErr> {
    match st {
        None => if starts_with(l, "define "@) {
            match spec_parse_signature(l) {
                Err(e) => Err(e),
                Ok((name, params, rt)) => Ok((
                    Some(PendingV { name, params, return_type: rt, blocks: seq![], current: None }),
                    None,
                )),
            }
        } else {
            Ok((None, None))
        },
        Some(p) => if l.len() == 0 {
            Ok((Some(p), None))
        } else if l == "}"@ {
            Ok((None, Some(FunctionV { name: p.name, params: p.params, return_type: p.return_type, blocks: all_blocks(p) })))
        } else if l.last() == ':' {
            Ok((
                Some(PendingV {
                    name: p.name,
                    params: p.params,
                    return_type: p.return_type,
                    blocks: all_blocks(p),
                    current: Some(fresh_block(trim_end_matches(l, ':'))),
                }),
                None,
            ))
        } else {
            match p.current {
                None => Err(IrErr::InstructionOutsideBlock),
                Some(b) => if starts_with(l, "ret "@) {
                    match spec_parse_ret(l) {
                        Err(e) => Err(e),
                        Ok(t) => Ok((Some(with_current(p, BasicBlockV { name: b.name, instrs: b.instrs, term: t })), None)),
                    }
                } else if starts_with(l, "br "@) {
                    match spec_parse_br(l) {
                        Err(e) => Err(e),
                        Ok(t) => Ok((Some(with_current(p, BasicBlockV { name: b.name, instrs: b.instrs, term: t })), None)),
                    }
                } else if starts_with(l, "store "@) {
                    match spec_parse_store(l) {
                        Err(e) => Err(e),
                        Ok(i) => Ok((Some(with_current(p, BasicBlockV { name: b.name, instrs: b.instrs.push(i), term: b.term })), None)),
                    }
                } else {
                    match spec_parse_instruction(l) {
                        Err(e) => Err(e),
                        Ok(i) => Ok((Some(with_current(p, BasicBlockV { name: b.name, instrs: b.instrs.push(i), term: b.term })), None)),
                    }
                },
            }
        },
    }
}

/// The raw lines `ls` read from state `st`, with `fs` the functions already read.
pub open spec fn spec_read_lines(ls: Seq<Seq<char>>, st: Option<PendingV>, fs: Seq<FunctionV>) -> Result<Seq<FunctionV>, IrErr>
    decreases ls.len(),
{
    if ls.len() == 0 {
        if st is None {
            Ok(fs)
        } else {
            Err(IrErr::UnterminatedFunction)
        }
    } else {
        match spec_read_line(st, clean_line(ls[0])) {
            Err(e) => Err(e),
            Ok((st2, done)) => spec_read_lines(
                ls.drop_first(),
                st2,
                match done {
                    Some(f) => fs.push(f),
                    None => fs,
                },
            ),
        }
    }
}

/// The module that a text describes: its lines read one by one, every
/// function from its `define` line to its closing `}`.
pub open spec fn spec_parse_module(text: Seq<char>) -> Result<ModuleV, IrErr> {
    match spec_read_lines(lines(text), None, seq![]) {
        Ok(fs) => Ok(ModuleV { functions: fs }),
        Err(e) => Err(e),
    }
}

// ---------------------------------------------------------------------------
// The readers.
// ---------------------------------------------------------------------------

fn string_of(s: &[char]) -> (r: String)
    ensures
        r@ == s@,
{
    string_from_chars(s)
}

/// `s` with the characters of `lit` dropped from its front.
fn drop_prefix_str(s: &[char], lit: &str) -> (r: Vec<char>)
    requires
        starts_with(s@, lit@),
    ensures
        r@ == drop_prefix(s@, lit@),
{
    let p = str_chars(lit);
    let r = sub_chars(s, p.len(), s.len());
    assert(r@ =~= s@.skip(p@.len() as int));
    r
}

/// A line without its `;` comment.
pub fn strip_comment(l: &[char]) -> (r: Vec<char>)
    ensures
        r@ == first_piece(l@, ';'),
{
    first_piece_chars(l, ';')
}

/// A line without its comment, trimmed.
pub fn clean_line_chars(l: &[char]) -> (r: Vec<char>)
    ensures
        r@ == clean_line(l@),
{
    let a = strip_comment(l);
    trim_chars(a.as_slice())
}

/// Reads a type name.
pub fn parse_type(s: &[char]) -> (r: Result<Type, IrParseError>)
    ensures
        match spec_parse_type(s@) {
            Ok(t) => r == Ok::<Type, IrParseError>(t),
            Err(e) => r is Err && r->Err_0@ == e,
        },
{
    if eq_str(s, "i1") {
        Ok(Type::I1)
    } else if eq_str(s, "i32") {
        Ok(Type::I32)
    } else if eq_str(s, "i64") {
        Ok(Type::I64)
    } else if eq_str(s, "void") {
        Ok(Type::Void)
    } else {
        Err(IrParseError::UnsupportedType(string_of(s)))
    }
}

/// Reads an `icmp` predicate.
pub fn parse_predicate(s: &[char]) -> (r: Result<ICmpPred, IrParseError>)
    ensures
        match spec_parse_predicate(s@) {
            Ok(p) => r == Ok::<ICmpPred, IrParseError>(p),
            Err(e) => r is Err && r->Err_0@ == e,
        },
{
    if eq_str(s, "eq") {
        Ok(ICmpPred::EQ)
    } else if eq_str(s, "ne") {
        Ok(ICmpPred::NE)
    } else if eq_str(s, "sgt") {
        Ok(ICmpPred::SGT)
    } else if eq_str(s, "sge") {
        Ok(ICmpPred::SGE)
    } else if eq_str(s, "slt") {
        Ok(ICmpPred::SLT)
    } else if eq_str(s, "sle") {
        Ok(ICmpPred::SLE)
    } else if eq_str(s, "ugt") {
        Ok(ICmpPred::UGT)
    } else if eq_str(s, "uge") {
        Ok(ICmpPred::UGE)
    } else if eq_str(s, "ult") {
        Ok(ICmpPred::ULT)
    } else if eq_str(s, "ule") {
        Ok(ICmpPred::ULE)
    } else {
        Err(IrParseError::UnsupportedPredicate(string_of(s)))
    }
}

/// Reads an operand.
pub fn parse_operand(s: &[char]) -> (r: Result<Operand, IrParseError>)
    ensures
        match spec_parse_operand(s@) {
            Ok(o) => r is Ok && r->Ok_0@ == o,
            Err(e) => r is Err && r->Err_0@ == e,
        },
{
    let t = trim_chars(s);
    if t.len() > 0 && t[0] == '%' {
        let name = trim_start_matches_char(t.as_slice(), '%');
        return Ok(Operand::Local(string_of(name.as_slice())));
    }
    if eq_str(t.as_slice(), "true") {
        return Ok(Operand::ConstBool(true));
    }
    if eq_str(t.as_slice(), "false") {
        return Ok(Operand::ConstBool(false));
    }
    match parse_i64_chars(t.as_slice()) {
        Some(v) => Ok(Operand::ConstInt(v)),
        None => Err(IrParseError::BadInt(string_of(t.as_slice()))),
    }
}

/// Drops the first word (a type) of `s` and trims the rest.
pub fn strip_type_prefix(s: &[char]) -> (r: Result<Vec<char>, IrParseError>)
    ensures
        match spec_strip_type_prefix(s@) {
            Ok(t) => r is Ok && r->Ok_0@ == t,
            Err(e) => r is Err && r->Err_0@ == e,
        },
{
    match first_word_chars(s) {
        Some(w) => {
            proof {
                lemma_first_word_len(s@);
            }
            let rest = sub_chars(s, w.len(), s.len());
            assert(rest@ =~= s@.skip(w@.len() as int));
            Ok(trim_chars(rest.as_slice()))
        },
        None => Err(IrParseError::MissingType),
    }
}

/// Drops a leading `i32 ` or `i1 ` type.
pub fn strip_type_prefix_any(s: &[char]) -> (r: Result<Vec<char>, IrParseError>)
    ensures
        match spec_strip_type_prefix_any(s@) {
            Ok(t) => r is Ok && r->Ok_0@ == t,
            Err(e) => r is Err && r->Err_0@ == e,
        },
{
    if starts_with_str(s, "i32 ") || starts_with_str(s, "i1 ") || starts_with_str(s, "void ") {
        strip_type_prefix(s)
    } else {
        Ok(sub_chars(s, 0, s.len()))
    }
}

/// Reads two operands separated by a comma.
pub fn parse_two_operands(s: &[char]) -> (r: Result<(Operand, Operand), IrParseError>)
    ensures
        match spec_parse_two_operands(s@) {
            Ok((x, y)) => r is Ok && r->Ok_0.0@ == x && r->Ok_0.1@ == y,
            Err(e) => r is Err && r->Err_0@ == e,
        },
{
    match split_once_char(s, ',') {
        None => Err(IrParseError::ExpectedTwoOperands),
        Some((a, b)) => {
            let ta = trim_chars(a.as_slice());
            match parse_operand(ta.as_slice()) {
                Err(e) => Err(e),
                Ok(x) => {
                    let tb = trim_chars(b.as_slice());
                    match parse_operand(tb.as_slice()) {
                        Err(e) => Err(e),
                        Ok(y) => Ok((x, y)),
                    }
                },
            }
        },
    }
}

fn bin_instr_exec(k: BinKind, dest: String, lhs: Operand, rhs: Operand) -> (r: Instr)
    ensures
        r@ == bin_instr(k, dest@, lhs@, rhs@),
{
    match k {
        BinKind::Add => Instr::Add { dest, lhs, rhs },
        BinKind::Sub => Instr::Sub { dest, lhs, rhs },
        BinKind::Mul => Instr::Mul { dest, lhs, rhs },
        BinKind::SDiv => Instr::SDiv { dest, lhs, rhs },
        BinKind::SRem => Instr::SRem { dest, lhs, rhs },
        BinKind::And => Instr::And { dest, lhs, rhs },
        BinKind::Or => Instr::Or { dest, lhs, rhs },
        BinKind::Xor => Instr::Xor { dest, lhs, rhs },
    }
}

/// Reads `op ty a, b`, the part of a two-operand assignment after `=`.
pub fn parse_binop(rest: &[char], op: &str, k: BinKind, dest: String) -> (r: Result<Instr, IrParseError>)
    ensures
        match spec_parse_binop(rest@, op@, k, dest@) {
            Ok(i) => r is Ok && r->Ok_0@ == i,
            Err(e) => r is Err && r->Err_0@ == e,
        },
{
    match strip_prefix_str(rest, op) {
        None => Err(IrParseError::BadBinop),
        Some(after) => {
            let t = trim_chars(after.as_slice());
            match strip_type_prefix_any(t.as_slice()) {
                Err(e) => Err(e),
                Ok(a) => match parse_two_operands(a.as_slice()) {
                    Err(e) => Err(e),
                    Ok((lhs, rhs)) => Ok(bin_instr_exec(k, dest, lhs, rhs)),
                },
            }
        },
    }
}

/// Reads `icmp pred ty a, b`.
pub fn parse_icmp(rest: &[char], dest: String) -> (r: Result<Instr, IrParseError>)
    requires
        starts_with(rest@, "icmp "@),
    ensures
        match spec_parse_icmp(rest@, dest@) {
            Ok(i) => r is Ok && r->Ok_0@ == i,
            Err(e) => r is Err && r->Err_0@ == e,
        },
{
    let d = drop_prefix_str(rest, "icmp ");
    let after = trim_chars(d.as_slice());
    match first_word_chars(after.as_slice()) {
        None => Err(IrParseError::MissingPredicate),
        Some(w) => match parse_predicate(w.as_slice()) {
            Err(e) => Err(e),
            Ok(pred) => {
                proof {
                    lemma_first_word_len(after@);
                }
                let ap = sub_chars(after.as_slice(), w.len(), after.len());
                assert(ap@ =~= drop_prefix(after@, w@));
                let ap2 = trim_chars(ap.as_slice());
                match strip_type_prefix_any(ap2.as_slice()) {
                    Err(e) => Err(e),
                    Ok(a) => match parse_two_operands(a.as_slice()) {
                        Err(e) => Err(e),
                        Ok((lhs, rhs)) => Ok(Instr::ICmp { dest, pred, lhs, rhs }),
                    },
                }
            },
        },
    }
}

/// Reads the arguments of a call.
fn call_args(parts: &Vec<Vec<char>>) -> (r: Result<Vec<Operand>, IrParseError>)
    ensures
        match spec_call_args(parts@.map_values(|v: Vec<char>| v@)) {
            Ok(os) => r is Ok && r->Ok_0@.map_values(|o: Operand| o@) == os,
            Err(e) => r is Err && r->Err_0@ == e,
        },
{
    let ghost ps = parts@.map_values(|v: Vec<char>| v@);
    let mut args: Vec<Operand> = Vec::new();
    let mut k: usize = 0;
    proof {
        assert(ps.skip(0) =~= ps);
    }
    while k < parts.len()
        invariant
            k <= parts@.len(),
            ps == parts@.map_values(|v: Vec<char>| v@),
            spec_call_args(ps) == match spec_call_args(ps.skip(k as int)) {
                Ok(os) => Ok(args@.map_values(|o: Operand| o@) + os),
                Err(e) => Err(e),
            },
        decreases parts@.len() - k,
    {
        let ghost before = args@.map_values(|o: Operand| o@);
        assert(ps.skip(k as int)[0] == parts@[k as int]@);
        assert(ps.skip(k as int).drop_first() =~= ps.skip(k + 1));
        let p = trim_chars(parts[k].as_slice());
        match first_word_chars(p.as_slice()) {
            None => {
                return Err(IrParseError::BadCallArg);
            },
            Some(_) => {},
        }
        match second_word_chars(p.as_slice()) {
            None => {
                return Err(IrParseError::BadCallArgValue);
            },
            Some(v) => match parse_operand(v.as_slice()) {
                Err(e) => {
                    return Err(e);
                },
                Ok(o) => {
                    let ghost ov = o@;
                    args.push(o);
                    assert(args@.map_values(|o: Operand| o@) =~= before.push(ov));
                    proof {
                        match spec_call_args(ps.skip(k + 1)) {
                            Ok(os) => {
                                assert(before + (seq![ov] + os) =~= before.push(ov) + os);
                            },
                            Err(_) => {},
                        }
                    }
                },
            },
        }
        k = k + 1;
    }
    proof {
        assert(ps.skip(k as int) =~= Seq::<Seq<char>>::empty());
        assert(args@.map_values(|o: Operand| o@) + Seq::<OperandV>::empty() =~= args@.map_values(|o: Operand| o@));
    }
    Ok(args)
}

/// Reads `call ty @f(ty a, ...)`.
pub fn parse_call(rest: &[char], dest: Option<String>) -> (r: Result<Instr, IrParseError>)
    requires
        starts_with(rest@, "call "@),
    ensures
        match spec_parse_call(rest@, opt_name(dest)) {
            Ok(i) => r is Ok && r->Ok_0@ == i,
            Err(e) => r is Err && r->Err_0@ == e,
        },
{
    let d = drop_prefix_str(rest, "call ");
    let t = trim_chars(d.as_slice());
    let after = match strip_type_prefix_any(t.as_slice()) {
        Err(e) => {
            return Err(e);
        },
        Ok(a) => a,
    };
    let at = match find_char(after.as_slice(), '@') {
        None => {
            return Err(IrParseError::CallMissingAt);
        },
        Some(at) => at,
    };
    let n = after.len();
    let after_at = sub_chars(after.as_slice(), at + 1, n);
    assert(after_at@ =~= after@.skip(at + 1));
    let lp = match find_char(after_at.as_slice(), '(') {
        None => {
            return Err(IrParseError::CallMissingLParen);
        },
        Some(lp) => lp,
    };
    let rp = match rfind_char(after_at.as_slice(), ')') {
        None => {
            return Err(IrParseError::CallMissingRParen);
        },
        Some(rp) => rp,
    };
    if rp < lp {
        return Err(IrParseError::CallMisplacedRParen);
    }
    proof {
        lemma_find_bounds(after_at@, '(');
        lemma_rfind_bounds(after_at@, ')');
    }
    let f = sub_chars(after_at.as_slice(), 0, lp);
    assert(f@ =~= after_at@.take(lp as int));
    let func = trim_chars(f.as_slice());
    let a = sub_chars(after_at.as_slice(), lp + 1, rp);
    let args_str = trim_chars(a.as_slice());
    if args_str.len() == 0 {
        let args: Vec<Operand> = Vec::new();
        assert(args@.map_values(|o: Operand| o@) =~= Seq::<OperandV>::empty());
        return Ok(Instr::Call { dest, func: string_of(func.as_slice()), args });
    }
    let parts = split_chars(args_str.as_slice(), ',');
    match call_args(&parts) {
        Err(e) => Err(e),
        Ok(args) => Ok(Instr::Call { dest, func: string_of(func.as_slice()), args }),
    }
}

pub open spec fn opt_name(o: Option<String>) -> Option<Seq<char>> {
    match o {
        Some(s) => Some(s@),
        None => None,
    }
}

/// Drops a leading `i32*`, `i1*` or `void*`.
fn strip_ptr_type_chars(s: &[char]) -> (r: Vec<char>)
    ensures
        r@ == strip_ptr_type(s@),
{
    match strip_prefix_str(s, "i32*") {
        Some(t) => t,
        None => match strip_prefix_str(s, "i1*") {
            Some(t) => t,
            None => match strip_prefix_str(s, "void*") {
                Some(t) => t,
                None => sub_chars(s, 0, s.len()),
            },
        },
    }
}

/// Reads `load ty, ty* %p`.
pub fn parse_load(rest: &[char], dest: String) -> (r: Result<Instr, IrParseError>)
    requires
        starts_with(rest@, "load "@),
    ensures
        match spec_parse_load(rest@, dest@) {
            Ok(i) => r is Ok && r->Ok_0@ == i,
            Err(e) => r is Err && r->Err_0@ == e,
        },
{
    let d = drop_prefix_str(rest, "load ");
    let after = trim_chars(d.as_slice());
    match split_once_char(after.as_slice(), ',') {
        None => Err(IrParseError::BadLoad),
        Some((_, p)) => {
            let p1 = trim_chars(p.as_slice());
            let p2 = strip_ptr_type_chars(p1.as_slice());
            let p3 = trim_chars(p2.as_slice());
            match parse_operand(p3.as_slice()) {
                Err(e) => Err(e),
                Ok(ptr) => Ok(Instr::Load { dest, ptr }),
            }
        },
    }
}


/// Reads the `[ value, %label ]` pairs of a phi.
fn phi_incomings(s: &[char]) -> (r: Result<Vec<(Operand, String)>, IrParseError>)
    ensures
        match spec_phi_incomings(s@) {
            Ok(ins) => r is Ok && r->Ok_0@.map_values(|p: (Operand, String)| (p.0@, p.1@)) == ins,
            Err(e) => r is Err && r->Err_0@ == e,
        },
{
    let mut out: Vec<(Operand, String)> = Vec::new();
    let mut cur: Vec<char> = sub_chars(s, 0, s.len());
    assert(cur@ =~= s@);
    loop
        invariant
            spec_phi_incomings(s@) == match spec_phi_incomings(cur@) {
                Ok(more) => Ok(out@.map_values(|p: (Operand, String)| (p.0@, p.1@)) + more),
                Err(e) => Err(e),
            },
        decreases cur@.len(),
    {
        let ghost before = out@.map_values(|p: (Operand, String)| (p.0@, p.1@));
        let start = match find_char(cur.as_slice(), '[') {
            None => {
                proof {
                    assert(before + Seq::<(OperandV, Seq<char>)>::empty() =~= before);
                }
                return Ok(out);
            },
            Some(start) => start,
        };
        let tail = sub_chars(cur.as_slice(), start, cur.len());
        assert(tail@ =~= cur@.skip(start as int));
        let off = match find_char(tail.as_slice(), ']') {
            None => {
                return Err(IrParseError::BadPhi);
            },
            Some(off) => off,
        };
        let end = start + off;
        proof {
            lemma_find_bounds(cur@, '[');
            lemma_find_bounds(tail@, ']');
            assert(tail@[0] == '[');
        }
        let c = sub_chars(cur.as_slice(), start + 1, end);
        let chunk = trim_chars(c.as_slice());
        let bb = match second_piece_chars(chunk.as_slice(), ',') {
            None => {
                return Err(IrParseError::BadPhiIncoming);
            },
            Some(bb) => bb,
        };
        let v0 = first_piece_chars(chunk.as_slice(), ',');
        let v1 = trim_chars(v0.as_slice());
        let v = match parse_operand(v1.as_slice()) {
            Err(e) => {
                return Err(e);
            },
            Ok(v) => v,
        };
        let b1 = trim_chars(bb.as_slice());
        let b2 = trim_start_matches_char(b1.as_slice(), '%');
        let name = string_of(b2.as_slice());
        let ghost item = (v@, name@);
        out.push((v, name));
        assert(out@.map_values(|p: (Operand, String)| (p.0@, p.1@)) =~= before.push(item));
        let next = sub_chars(cur.as_slice(), end + 1, cur.len());
        assert(next@ =~= cur@.skip(end + 1));
        proof {
            match spec_phi_incomings(next@) {
                Ok(more) => {
                    assert(before + (seq![item] + more) =~= before.push(item) + more);
                },
                Err(_) => {},
            }
        }
        cur = next;
    }
}

/// The second piece of `s` split at `c`, if `s` holds a `c`.
fn second_piece_chars(s: &[char], c: char) -> (r: Option<Vec<char>>)
    ensures
        match second_piece(s@, c) {
            Some(t) => r is Some && r->Some_0@ == t,
            None => r is None,
        },
{
    match split_once_char(s, c) {
        None => None,
        Some((_, rest)) => Some(first_piece_chars(rest.as_slice(), c)),
    }
}

/// Drops a leading `i32`, `i1` or `void`.
fn strip_phi_type_chars(s: &[char]) -> (r: Vec<char>)
    ensures
        r@ == strip_phi_type(s@),
{
    match strip_prefix_str(s, "i32") {
        Some(t) => t,
        None => match strip_prefix_str(s, "i1") {
            Some(t) => t,
            None => match strip_prefix_str(s, "void") {
                Some(t) => t,
                None => sub_chars(s, 0, s.len()),
            },
        },
    }
}

/// Reads `phi ty [ a, %l ], ...`.
pub fn parse_phi(rest: &[char], dest: String) -> (r: Result<Instr, IrParseError>)
    requires
        starts_with(rest@, "phi "@),
    ensures
        match spec_parse_phi(rest@, dest@) {
            Ok(i) => r is Ok && r->Ok_0@ == i,
            Err(e) => r is Err && r->Err_0@ == e,
        },
{
    let d = drop_prefix_str(rest, "phi ");
    let a1 = trim_chars(d.as_slice());
    let a2 = strip_phi_type_chars(a1.as_slice());
    let a3 = trim_chars(a2.as_slice());
    match phi_incomings(a3.as_slice()) {
        Err(e) => Err(e),
        Ok(incomings) => Ok(Instr::Phi { dest, incomings }),
    }
}


/// Reads an assignment `%d = ...`.
pub fn parse_instruction(line: &[char]) -> (r: Result<Instr, IrParseError>)
    ensures
        match spec_parse_instruction(line@) {
            Ok(i) => r is Ok && r->Ok_0@ == i,
            Err(e) => r is Err && r->Err_0@ == e,
        },
{
    let (d, r0) = match split_once_char(line, '=') {
        None => {
            return Err(IrParseError::ExpectedAssignment);
        },
        Some(p) => p,
    };
    let d1 = trim_chars(d.as_slice());
    let d2 = trim_start_matches_char(d1.as_slice(), '%');
    let dest = string_of(d2.as_slice());
    let rest = trim_chars(r0.as_slice());
    let rs = rest.as_slice();
    if starts_with_str(rs, "add ") {
        parse_binop(rs, "add", BinKind::Add, dest)
    } else if starts_with_str(rs, "sub ") {
        parse_binop(rs, "sub", BinKind::Sub, dest)
    } else if starts_with_str(rs, "mul ") {
        parse_binop(rs, "mul", BinKind::Mul, dest)
    } else if starts_with_str(rs, "sdiv ") {
        parse_binop(rs, "sdiv", BinKind::SDiv, dest)
    } else if starts_with_str(rs, "srem ") {
        parse_binop(rs, "srem", BinKind::SRem, dest)
    } else if starts_with_str(rs, "and ") {
        parse_binop(rs, "and", BinKind::And, dest)
    } else if starts_with_str(rs, "or ") {
        parse_binop(rs, "or", BinKind::Or, dest)
    } else if starts_with_str(rs, "xor ") {
        parse_binop(rs, "xor", BinKind::Xor, dest)
    } else if starts_with_str(rs, "icmp ") {
        parse_icmp(rs, dest)
    } else if starts_with_str(rs, "call ") {
        parse_call(rs, Some(dest))
    } else if starts_with_str(rs, "alloca ") {
        Ok(Instr::Alloca { dest })
    } else if starts_with_str(rs, "load ") {
        parse_load(rs, dest)
    } else if starts_with_str(rs, "phi ") {
        parse_phi(rs, dest)
    } else {
        Err(IrParseError::UnsupportedInstruction(string_of(line)))
    }
}

/// Reads `ret ty v`.
pub fn parse_ret(line: &[char]) -> (r: Result<Terminator, IrParseError>)
    requires
        starts_with(line@, "ret "@),
    ensures
        match spec_parse_ret(line@) {
            Ok(t) => r is Ok && r->Ok_0@ == t,
            Err(e) => r is Err && r->Err_0@ == e,
        },
{
    let d = drop_prefix_str(line, "ret ");
    let after = trim_chars(d.as_slice());
    match strip_type_prefix(after.as_slice()) {
        Err(e) => Err(e),
        Ok(a) => match parse_operand(a.as_slice()) {
            Err(e) => Err(e),
            Ok(value) => Ok(Terminator::Ret { value }),
        },
    }
}

/// Reads `store ty v, ty* %p`.
pub fn parse_store(line: &[char]) -> (r: Result<Instr, IrParseError>)
    requires
        starts_with(line@, "store "@),
    ensures
        match spec_parse_store(line@) {
            Ok(i) => r is Ok && r->Ok_0@ == i,
            Err(e) => r is Err && r->Err_0@ == e,
        },
{
    let d = drop_prefix_str(line, "store ");
    let after = trim_chars(d.as_slice());
    let (v, r0) = match split_once_char(after.as_slice(), ',') {
        None => {
            return Err(IrParseError::BadStore);
        },
        Some(p) => p,
    };
    let r1 = trim_chars(r0.as_slice());
    let r2 = strip_ptr_type_chars(r1.as_slice());
    let ptr_str = trim_chars(r2.as_slice());
    let v1 = trim_chars(v.as_slice());
    let vs = match strip_type_prefix_any(v1.as_slice()) {
        Err(e) => {
            return Err(e);
        },
        Ok(vs) => vs,
    };
    let vs1 = trim_chars(vs.as_slice());
    let value = match parse_operand(vs1.as_slice()) {
        Err(e) => {
            return Err(e);
        },
        Ok(value) => value,
    };
    match parse_operand(ptr_str.as_slice()) {
        Err(e) => Err(e),
        Ok(ptr) => Ok(Instr::Store { value, ptr }),
    }
}

/// A branch target, as the label's name.
fn label_target_chars(s: &[char]) -> (r: String)
    ensures
        r@ == label_target(s@),
{
    let t = trim_chars(s);
    let u = trim_start_matches_char(t.as_slice(), '%');
    string_of(u.as_slice())
}

/// Reads `br label %l` or `br i1 c, label %t, label %f`.
pub fn parse_br(line: &[char]) -> (r: Result<Terminator, IrParseError>)
    requires
        starts_with(line@, "br "@),
    ensures
        match spec_parse_br(line@) {
            Ok(t) => r is Ok && r->Ok_0@ == t,
            Err(e) => r is Err && r->Err_0@ == e,
        },
{
    let d = drop_prefix_str(line, "br ");
    let after = trim_chars(d.as_slice());
    if starts_with_str(after.as_slice(), "label ") {
        let l = drop_prefix_str(after.as_slice(), "label ");
        return Ok(Terminator::Br { dest: label_target_chars(l.as_slice()) });
    }
    if !starts_with_str(after.as_slice(), "i1 ") {
        return Err(IrParseError::UnsupportedBr(string_of(line)));
    }
    let a1 = drop_prefix_str(after.as_slice(), "i1 ");
    let a2 = trim_chars(a1.as_slice());
    let (c, r0) = match split_once_char(a2.as_slice(), ',') {
        None => {
            return Err(IrParseError::BadCondBr);
        },
        Some(p) => p,
    };
    let c1 = trim_chars(c.as_slice());
    let cond = match parse_operand(c1.as_slice()) {
        Err(e) => {
            return Err(e);
        },
        Ok(cond) => cond,
    };
    let rest = trim_chars(r0.as_slice());
    let t0 = first_piece_chars(rest.as_slice(), ',');
    let t = trim_chars(t0.as_slice());
    let f = match second_piece_chars(rest.as_slice(), ',') {
        None => {
            return Err(IrParseError::BadCondBr);
        },
        Some(f) => f,
    };
    let t2 = match strip_prefix_str(t.as_slice(), "label ") {
        None => {
            return Err(IrParseError::BadTrueDest);
        },
        Some(t2) => t2,
    };
    let f1 = trim_chars(f.as_slice());
    let f2 = match strip_prefix_str(f1.as_slice(), "label ") {
        None => {
            return Err(IrParseError::BadFalseDest);
        },
        Some(f2) => f2,
    };
    Ok(Terminator::CondBr {
        cond,
        then_dest: label_target_chars(t2.as_slice()),
        else_dest: label_target_chars(f2.as_slice()),
    })
}


/// Reads the parameters of a definition.
fn params_of(parts: &Vec<Vec<char>>) -> (r: Result<Vec<Param>, IrParseError>)
    ensures
        match spec_params(parts@.map_values(|v: Vec<char>| v@)) {
            Ok(ps) => r is Ok && r->Ok_0@.map_values(|p: Param| ParamV { name: p.name@, ty: p.ty }) == ps,
            Err(e) => r is Err && r->Err_0@ == e,
        },
{
    let ghost ps = parts@.map_values(|v: Vec<char>| v@);
    let mut out: Vec<Param> = Vec::new();
    let mut k: usize = 0;
    proof {
        assert(ps.skip(0) =~= ps);
    }
    while k < parts.len()
        invariant
            k <= parts@.len(),
            ps == parts@.map_values(|v: Vec<char>| v@),
            spec_params(ps) == match spec_params(ps.skip(k as int)) {
                Ok(more) => Ok(out@.map_values(|p: Param| ParamV { name: p.name@, ty: p.ty }) + more),
                Err(e) => Err(e),
            },
        decreases parts@.len() - k,
    {
        let ghost before = out@.map_values(|p: Param| ParamV { name: p.name@, ty: p.ty });
        assert(ps.skip(k as int)[0] == parts@[k as int]@);
        assert(ps.skip(k as int).drop_first() =~= ps.skip(k + 1));
        let p = trim_chars(parts[k].as_slice());
        let ty = match first_word_chars(p.as_slice()) {
            None => {
                return Err(IrParseError::BadParam);
            },
            Some(ty) => ty,
        };
        let n = match second_word_chars(p.as_slice()) {
            None => {
                return Err(IrParseError::BadParamName);
            },
            Some(n) => n,
        };
        let n1 = trim_start_matches_char(n.as_slice(), '%');
        let name = string_of(n1.as_slice());
        let t = match parse_type(ty.as_slice()) {
            Err(e) => {
                return Err(e);
            },
            Ok(t) => t,
        };
        let ghost item = ParamV { name: name@, ty: t };
        out.push(Param { name, ty: t });
        assert(out@.map_values(|p: Param| ParamV { name: p.name@, ty: p.ty }) =~= before.push(item));
        proof {
            match spec_params(ps.skip(k + 1)) {
                Ok(more) => {
                    assert(before + (seq![item] + more) =~= before.push(item) + more);
                },
                Err(_) => {},
            }
        }
        k = k + 1;
    }
    proof {
        assert(ps.skip(k as int) =~= Seq::<Seq<char>>::empty());
        let done = out@.map_values(|p: Param| ParamV { name: p.name@, ty: p.ty });
        assert(done + Seq::<ParamV>::empty() =~= done);
    }
    Ok(out)
}

/// Reads `define ty @name(params) {`.
pub fn parse_function_signature(line: &[char]) -> (r: Result<(String, Vec<Param>, Type), IrParseError>)
    ensures
        match spec_parse_signature(line@) {
            Ok((name, params, rt)) => r is Ok && r->Ok_0.0@ == name
                && params_v(r->Ok_0.1@) == params && r->Ok_0.2 == rt,
            Err(e) => r is Err && r->Err_0@ == e,
        },
{
    let rest = match strip_prefix_str(line, "define ") {
        None => {
            return Err(IrParseError::InvalidDefine);
        },
        Some(rest) => rest,
    };
    let at = match find_char(rest.as_slice(), '@') {
        None => {
            return Err(IrParseError::MissingFunctionName);
        },
        Some(at) => at,
    };
    let t0 = sub_chars(rest.as_slice(), 0, at);
    assert(t0@ =~= rest@.take(at as int));
    let t1 = trim_chars(t0.as_slice());
    let rt = match parse_type(t1.as_slice()) {
        Err(e) => {
            return Err(e);
        },
        Ok(rt) => rt,
    };
    let n = rest.len();
    let after_at = sub_chars(rest.as_slice(), at + 1, n);
    assert(after_at@ =~= rest@.skip(at + 1));
    let lp = match find_char(after_at.as_slice(), '(') {
        None => {
            return Err(IrParseError::MissingLParen);
        },
        Some(lp) => lp,
    };
    let rp = match find_char(after_at.as_slice(), ')') {
        None => {
            return Err(IrParseError::MissingRParen);
        },
        Some(rp) => rp,
    };
    if rp < lp {
        return Err(IrParseError::MisplacedRParen);
    }
    proof {
        lemma_find_bounds(after_at@, '(');
        lemma_find_bounds(after_at@, ')');
    }
    let n0 = sub_chars(after_at.as_slice(), 0, lp);
    assert(n0@ =~= after_at@.take(lp as int));
    let n1 = trim_chars(n0.as_slice());
    let name = string_of(n1.as_slice());
    let p0 = sub_chars(after_at.as_slice(), lp + 1, rp);
    let ps = trim_chars(p0.as_slice());
    if ps.len() == 0 {
        let params: Vec<Param> = Vec::new();
        assert(params_v(params@) =~= Seq::<ParamV>::empty());
        return Ok((name, params, rt));
    }
    let parts = split_chars(ps.as_slice(), ',');
    match params_of(&parts) {
        Err(e) => Err(e),
        Ok(params) => Ok((name, params, rt)),
    }
}

/// A function being read: the parts read so far.
struct PendingFunction {
    name: String,
    params: Vec<Param>,
    return_type: Type,
    blocks: Vec<BasicBlock>,
    current: Option<BasicBlock>,
}

spec fn pending_v(p: PendingFunction) -> PendingV {
    PendingV {
        name: p.name@,
        params: params_v(p.params@),
        return_type: p.return_type,
        blocks: blocks_v(p.blocks@),
        current: match p.current {
            Some(b) => Some(b@),
            None => None,
        },
    }
}

spec fn state_v(st: Option<PendingFunction>) -> Option<PendingV> {
    match st {
        Some(p) => Some(pending_v(p)),
        None => None,
    }
}

spec fn done_v(f: Option<Function>) -> Option<FunctionV> {
    match f {
        Some(f) => Some(f@),
        None => None,
    }
}

/// The blocks of a pending function, the current one closed.
fn close_blocks(blocks: Vec<BasicBlock>, current: Option<BasicBlock>) -> (r: Vec<BasicBlock>)
    ensures
        blocks_v(r@) == match current {
            Some(b) => blocks_v(blocks@).push(b@),
            None => blocks_v(blocks@),
        },
{
    let mut blocks = blocks;
    let ghost before = blocks_v(blocks@);
    match current {
        Some(b) => {
            let ghost bv = b@;
            blocks.push(b);
            assert(blocks_v(blocks@) =~= before.push(bv));
        },
        None => {},
    }
    blocks
}

/// Reads one cleaned line in a state; see `spec_read_line`.
fn read_line(st: Option<PendingFunction>, l: &[char]) -> (r: Result<(Option<PendingFunction>, Option<Function>), IrParseError>)
    ensures
        match spec_read_line(state_v(st), l@) {
            Ok((st2, done)) => r is Ok && state_v(r->Ok_0.0) == st2 && done_v(r->Ok_0.1) == done,
            Err(e) => r is Err && r->Err_0@ == e,
        },
{
    match st {
        None => {
            if starts_with_str(l, "define ") {
                match parse_function_signature(l) {
                    Err(e) => Err(e),
                    Ok((name, params, return_type)) => {
                        let blocks: Vec<BasicBlock> = Vec::new();
                        assert(blocks_v(blocks@) =~= Seq::<BasicBlockV>::empty());
                        Ok((Some(PendingFunction { name, params, return_type, blocks, current: None }), None))
                    },
                }
            } else {
                Ok((None, None))
            }
        },
        Some(p) => {
            if l.len() == 0 {
                return Ok((Some(p), None));
            }
            let PendingFunction { name, params, return_type, blocks, current } = p;
            if eq_str(l, "}") {
                let blocks = close_blocks(blocks, current);
                return Ok((None, Some(Function { name, params, return_type, blocks })));
            }
            if l[l.len() - 1] == ':' {
                let blocks = close_blocks(blocks, current);
                let label = trim_end_matches_char(l, ':');
                let fresh = BasicBlock {
                    name: string_of(label.as_slice()),
                    instrs: Vec::new(),
                    term: Terminator::Br { dest: String::from_str("__unset__") },
                };
                assert(fresh@.instrs =~= Seq::<InstrV>::empty());
                return Ok((Some(PendingFunction { name, params, return_type, blocks, current: Some(fresh) }), None));
            }
            let b = match current {
                None => {
                    return Err(IrParseError::InstructionOutsideBlock);
                },
                Some(b) => b,
            };
            let BasicBlock { name: bname, instrs, term } = b;
            let mut instrs = instrs;
            let mut term = term;
            let ghost before = instrs_v(instrs@);
            if starts_with_str(l, "ret ") {
                match parse_ret(l) {
                    Err(e) => {
                        return Err(e);
                    },
                    Ok(t) => {
                        term = t;
                    },
                }
            } else if starts_with_str(l, "br ") {
                match parse_br(l) {
                    Err(e) => {
                        return Err(e);
                    },
                    Ok(t) => {
                        term = t;
                    },
                }
            } else if starts_with_str(l, "store ") {
                match parse_store(l) {
                    Err(e) => {
                        return Err(e);
                    },
                    Ok(i) => {
                        let ghost iv = i@;
                        instrs.push(i);
                        assert(instrs_v(instrs@) =~= before.push(iv));
                    },
                }
            } else {
                match parse_instruction(l) {
                    Err(e) => {
                        return Err(e);
                    },
                    Ok(i) => {
                        let ghost iv = i@;
                        instrs.push(i);
                        assert(instrs_v(instrs@) =~= before.push(iv));
                    },
                }
            }
            let cur = BasicBlock { name: bname, instrs, term };
            Ok((Some(PendingFunction { name, params, return_type, blocks, current: Some(cur) }), None))
        },
    }
}

/// Reads a module from its text.
pub fn parse_module(text: &str) -> (r: Result<Module, IrParseError>)
    ensures
        match spec_parse_module(text@) {
            Ok(m) => r is Ok && r->Ok_0@ == m,
            Err(e) => r is Err && r->Err_0@ == e,
        },
{
    let chars = str_chars(text);
    let ls = lines_chars(chars.as_slice());
    let ghost lv = ls@.map_values(|v: Vec<char>| v@);
    let mut functions: Vec<Function> = Vec::new();
    let mut st: Option<PendingFunction> = None;
    let mut k: usize = 0;
    proof {
        assert(lv.skip(0) =~= lv);
        assert(functions_v(functions@) =~= Seq::<FunctionV>::empty());
    }
    while k < ls.len()
        invariant
            k <= ls@.len(),
            lv == ls@.map_values(|v: Vec<char>| v@),
            lv == lines(text@),
            spec_read_lines(lv, None, seq![]) == spec_read_lines(lv.skip(k as int), state_v(st), functions_v(functions@)),
        decreases ls@.len() - k,
    {
        assert(lv.skip(k as int)[0] == ls@[k as int]@);
        assert(lv.skip(k as int).drop_first() =~= lv.skip(k + 1));
        let l = clean_line_chars(ls[k].as_slice());
        let ghost fs = functions_v(functions@);
        match read_line(st, l.as_slice()) {
            Err(e) => {
                return Err(e);
            },
            Ok((st2, done)) => {
                match done {
                    Some(f) => {
                        let ghost fv = f@;
                        functions.push(f);
                        assert(functions_v(functions@) =~= fs.push(fv));
                    },
                    None => {},
                }
                st = st2;
            },
        }
        k = k + 1;
    }
    assert(lv.skip(k as int) =~= Seq::<Seq<char>>::empty());
    match st {
        Some(_) => Err(IrParseError::UnterminatedFunction),
        None => Ok(Module { functions }),
    }
}

impl ModuleRef {
    /// Reads a module from the text of a `.ll` file.
    pub fn from_ll_text(text: &str) -> (r: Result<ModuleRef, IrParseError>)
        ensures
            match spec_parse_module(text@) {
                Ok(m) => r is Ok && r->Ok_0@ == m,
                Err(e) => r is Err && r->Err_0@ == e,
            },
    {
        match parse_module(text) {
            Ok(module) => Ok(ModuleRef { module }),
            Err(e) => Err(e),
        }
    }
}


} // verus!
