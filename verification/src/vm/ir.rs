//! The LLVM IR that the virtual machine runs, and its text reader.
use vstd::prelude::*;

verus! {

/// A loaded module.
#[derive(Debug)]
pub struct ModuleRef {
    pub module: Module,
}

/// A module: its functions in order.
#[derive(Debug)]
pub struct Module {
    pub functions: Vec<Function>,
}

/// A function definition.
#[derive(Debug)]
pub struct Function {
    pub name: String,
    pub params: Vec<Param>,
    pub return_type: Type,
    pub blocks: Vec<BasicBlock>,
}

/// A function parameter.
#[derive(Debug)]
pub struct Param {
    pub name: String,
    pub ty: Type,
}

/// A basic block.
#[derive(Debug)]
pub struct BasicBlock {
    pub name: String,
    pub instrs: Vec<Instr>,
    pub term: Terminator,
}

/// A value type.
#[derive(Debug, Clone, Copy, PartialEq, Eq, Structural)]
pub enum Type {
    I1,
    I32,
    I64,
    Void,
}

/// An instruction operand: a local by name (without `%`), or a constant.
#[derive(Debug)]
pub enum Operand {
    Local(String),
    ConstInt(i64),
    ConstBool(bool),
}

/// An integer comparison predicate.
#[derive(Debug, Clone, Copy, PartialEq, Eq, Structural)]
pub enum ICmpPred {
    EQ,
    NE,
    SGT,
    SGE,
    SLT,
    SLE,
    UGT,
    UGE,
    ULT,
    ULE,
}

/// An instruction; destinations are local names without `%`.
#[derive(Debug)]
pub enum Instr {
    Add { dest: String, lhs: Operand, rhs: Operand },
    Sub { dest: String, lhs: Operand, rhs: Operand },
    Mul { dest: String, lhs: Operand, rhs: Operand },
    SDiv { dest: String, lhs: Operand, rhs: Operand },
    SRem { dest: String, lhs: Operand, rhs: Operand },
    And { dest: String, lhs: Operand, rhs: Operand },
    Or { dest: String, lhs: Operand, rhs: Operand },
    Xor { dest: String, lhs: Operand, rhs: Operand },
    ICmp { dest: String, pred: ICmpPred, lhs: Operand, rhs: Operand },
    Call { dest: Option<String>, func: String, args: Vec<Operand> },
    Alloca { dest: String },
    Store { value: Operand, ptr: Operand },
    Load { dest: String, ptr: Operand },
    Phi { dest: String, incomings: Vec<(Operand, String)> },
}

/// How a block ends.
#[derive(Debug)]
pub enum Terminator {
    Ret { value: Operand },
    Br { dest: String },
    CondBr { cond: Operand, then_dest: String, else_dest: String },
}

pub enum OperandV {
    Local(Seq<char>),
    ConstInt(i64),
    ConstBool(bool),
}

pub enum InstrV {
    Add { dest: Seq<char>, lhs: OperandV, rhs: OperandV },
    Sub { dest: Seq<char>, lhs: OperandV, rhs: OperandV },
    Mul { dest: Seq<char>, lhs: OperandV, rhs: OperandV },
    SDiv { dest: Seq<char>, lhs: OperandV, rhs: OperandV },
    SRem { dest: Seq<char>, lhs: OperandV, rhs: OperandV },
    And { dest: Seq<char>, lhs: OperandV, rhs: OperandV },
    Or { dest: Seq<char>, lhs: OperandV, rhs: OperandV },
    Xor { dest: Seq<char>, lhs: OperandV, rhs: OperandV },
    ICmp { dest: Seq<char>, pred: ICmpPred, lhs: OperandV, rhs: OperandV },
    Call { dest: Option<Seq<char>>, func: Seq<char>, args: Seq<OperandV> },
    Alloca { dest: Seq<char> },
    Store { value: OperandV, ptr: OperandV },
    Load { dest: Seq<char>, ptr: OperandV },
    Phi { dest: Seq<char>, incomings: Seq<(OperandV, Seq<char>)> },
}

pub enum TerminatorV {
    Ret { value: OperandV },
    Br { dest: Seq<char> },
    CondBr { cond: OperandV, then_dest: Seq<char>, else_dest: Seq<char> },
}

pub struct BasicBlockV {
    pub name: Seq<char>,
    pub instrs: Seq<InstrV>,
    pub term: TerminatorV,
}

pub struct ParamV {
    pub name: Seq<char>,
    pub ty: Type,
}

pub struct FunctionV {
    pub name: Seq<char>,
    pub params: Seq<ParamV>,
    pub return_type: Type,
    pub blocks: Seq<BasicBlockV>,
}

pub struct ModuleV {
    pub functions: Seq<FunctionV>,
}

impl View for Operand {
    type V = OperandV;

    open spec fn view(&self) -> OperandV {
        match self {
            Operand::Local(s) => OperandV::Local(s@),
            Operand::ConstInt(v) => OperandV::ConstInt(*v),
            Operand::ConstBool(b) => OperandV::ConstBool(*b),
        }
    }
}

pub open spec fn operands_v(s: Seq<Operand>) -> Seq<OperandV> {
    s.map_values(|o: Operand| o@)
}

pub open spec fn incomings_v(s: Seq<(Operand, String)>) -> Seq<(OperandV, Seq<char>)> {
    s.map_values(|p: (Operand, String)| (p.0@, p.1@))
}

pub open spec fn opt_name_v(o: Option<String>) -> Option<Seq<char>> {
    match o {
        Some(s) => Some(s@),
        None => None,
    }
}

impl View for Instr {
    type V = InstrV;

    open spec fn view(&self) -> InstrV {
        match self {
            Instr::Add { dest, lhs, rhs } => InstrV::Add { dest: dest@, lhs: lhs@, rhs: rhs@ },
            Instr::Sub { dest, lhs, rhs } => InstrV::Sub { dest: dest@, lhs: lhs@, rhs: rhs@ },
            Instr::Mul { dest, lhs, rhs } => InstrV::Mul { dest: dest@, lhs: lhs@, rhs: rhs@ },
            Instr::SDiv { dest, lhs, rhs } => InstrV::SDiv { dest: dest@, lhs: lhs@, rhs: rhs@ },
            Instr::SRem { dest, lhs, rhs } => InstrV::SRem { dest: dest@, lhs: lhs@, rhs: rhs@ },
            Instr::And { dest, lhs, rhs } => InstrV::And { dest: dest@, lhs: lhs@, rhs: rhs@ },
            Instr::Or { dest, lhs, rhs } => InstrV::Or { dest: dest@, lhs: lhs@, rhs: rhs@ },
            Instr::Xor { dest, lhs, rhs } => InstrV::Xor { dest: dest@, lhs: lhs@, rhs: rhs@ },
            Instr::ICmp { dest, pred, lhs, rhs } => InstrV::ICmp { dest: dest@, pred: *pred, lhs: lhs@, rhs: rhs@ },
            Instr::Call { dest, func, args } => InstrV::Call {
                dest: opt_name_v(*dest),
                func: func@,
                args: operands_v(args@),
            },
            Instr::Alloca { dest } => InstrV::Alloca { dest: dest@ },
            Instr::Store { value, ptr } => InstrV::Store { value: value@, ptr: ptr@ },
            Instr::Load { dest, ptr } => InstrV::Load { dest: dest@, ptr: ptr@ },
            Instr::Phi { dest, incomings } => InstrV::Phi { dest: dest@, incomings: incomings_v(incomings@) },
        }
    }
}

impl View for Terminator {
    type V = TerminatorV;

    open spec fn view(&self) -> TerminatorV {
        match self {
            Terminator::Ret { value } => TerminatorV::Ret { value: value@ },
            Terminator::Br { dest } => TerminatorV::Br { dest: dest@ },
            Terminator::CondBr { cond, then_dest, else_dest } => TerminatorV::CondBr {
                cond: cond@,
                then_dest: then_dest@,
                else_dest: else_dest@,
            },
        }
    }
}

pub open spec fn instrs_v(s: Seq<Instr>) -> Seq<InstrV> {
    s.map_values(|i: Instr| i@)
}

impl View for BasicBlock {
    type V = BasicBlockV;

    open spec fn view(&self) -> BasicBlockV {
        BasicBlockV { name: self.name@, instrs: instrs_v(self.instrs@), term: self.term@ }
    }
}

pub open spec fn blocks_v(s: Seq<BasicBlock>) -> Seq<BasicBlockV> {
    s.map_values(|b: BasicBlock| b@)
}

pub open spec fn params_v(s: Seq<Param>) -> Seq<ParamV> {
    s.map_values(|p: Param| ParamV { name: p.name@, ty: p.ty })
}

impl View for Function {
    type V = FunctionV;

    open spec fn view(&self) -> FunctionV {
        FunctionV {
            name: self.name@,
            params: params_v(self.params@),
            return_type: self.return_type,
            blocks: blocks_v(self.blocks@),
        }
    }
}

pub open spec fn functions_v(s: Seq<Function>) -> Seq<FunctionV> {
    s.map_values(|f: Function| f@)
}

impl View for Module {
    type V = ModuleV;

    open spec fn view(&self) -> ModuleV {
        ModuleV { functions: functions_v(self.functions@) }
    }
}

impl View for ModuleRef {
    type V = ModuleV;

    open spec fn view(&self) -> ModuleV {
        self.module@
    }
}

} // verus!
