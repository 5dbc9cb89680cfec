//! The LLVM IR that the compiler emits, and its textual form.
use vstd::prelude::*;
use crate::compiler::ast::Type;

verus! {

/// A compiled module: its functions in order.
#[derive(Debug)]
pub struct Module {
    pub functions: Vec<Function>,
}

/// A parameter of a compiled function.
#[derive(Debug)]
pub struct Param {
    pub name: String,
    pub ty: Type,
}

/// A compiled function.
#[derive(Debug)]
pub struct Function {
    pub name: String,
    pub params: Vec<Param>,
    pub return_type: Type,
    pub blocks: Vec<BasicBlock>,
}

/// A basic block: a label, straight-line instructions and a terminator.
#[derive(Debug)]
pub struct BasicBlock {
    pub name: String,
    pub instrs: Vec<Instr>,
    pub term: Terminator,
}

/// An instruction.  Values and destinations are written as they appear in
/// the text (`%t1`, `40`, `true`).
#[derive(Debug)]
pub enum Instr {
    Add { dest: String, lhs: String, rhs: String },
    Sub { dest: String, lhs: String, rhs: String },
    Mul { dest: String, lhs: String, rhs: String },
    SDiv { dest: String, lhs: String, rhs: String },
    SRem { dest: String, lhs: String, rhs: String },
    And { dest: String, lhs: String, rhs: String },
    Or { dest: String, lhs: String, rhs: String },
    Xor { dest: String, lhs: String, rhs: String },
    ICmp { dest: String, pred: String, ty: Type, lhs: String, rhs: String },
    Call { dest: Option<String>, ret_ty: Type, func: String, args: Vec<(Type, String)> },
    Alloca { dest: String, ty: Type },
    Store { ty: Type, value: String, ptr: String },
    Load { dest: String, ty: Type, ptr: String },
    Phi { dest: String, ty: Type, incomings: Vec<(String, String)> },
}

/// How a basic block ends.
#[derive(Debug)]
pub enum Terminator {
    Ret { value: String },
    Br { dest: String },
    CondBr { cond: String, then_dest: String, else_dest: String },
}

pub enum InstrV {
    Add { dest: Seq<char>, lhs: Seq<char>, rhs: Seq<char> },
    Sub { dest: Seq<char>, lhs: Seq<char>, rhs: Seq<char> },
    Mul { dest: Seq<char>, lhs: Seq<char>, rhs: Seq<char> },
    SDiv { dest: Seq<char>, lhs: Seq<char>, rhs: Seq<char> },
    SRem { dest: Seq<char>, lhs: Seq<char>, rhs: Seq<char> },
    And { dest: Seq<char>, lhs: Seq<char>, rhs: Seq<char> },
    Or { dest: Seq<char>, lhs: Seq<char>, rhs: Seq<char> },
    Xor { dest: Seq<char>, lhs: Seq<char>, rhs: Seq<char> },
    ICmp { dest: Seq<char>, pred: Seq<char>, ty: Type, lhs: Seq<char>, rhs: Seq<char> },
    Call { dest: Option<Seq<char>>, ret_ty: Type, func: Seq<char>, args: Seq<(Type, Seq<char>)> },
    Alloca { dest: Seq<char>, ty: Type },
    Store { ty: Type, value: Seq<char>, ptr: Seq<char> },
    Load { dest: Seq<char>, ty: Type, ptr: Seq<char> },
    Phi { dest: Seq<char>, ty: Type, incomings: Seq<(Seq<char>, Seq<char>)> },
}

pub enum TerminatorV {
    Ret { value: Seq<char> },
    Br { dest: Seq<char> },
    CondBr { cond: Seq<char>, then_dest: Seq<char>, else_dest: Seq<char> },
}

#[verifier::ext_equal]
pub struct BasicBlockV {
    pub name: Seq<char>,
    pub instrs: Seq<InstrV>,
    pub term: TerminatorV,
}

pub struct ParamV {
    pub name: Seq<char>,
    pub ty: Type,
}

pub struct FunctionV {
    pub name: Seq<char>,
    pub params: Seq<ParamV>,
    pub return_type: Type,
    pub blocks: Seq<BasicBlockV>,
}

pub struct ModuleV {
    pub functions: Seq<FunctionV>,
}

pub open spec fn typed_args_v(a: Seq<(Type, String)>) -> Seq<(Type, Seq<char>)> {
    a.map_values(|p: (Type, String)| (p.0, p.1@))
}

pub open spec fn incomings_v(a: Seq<(String, String)>) -> Seq<(Seq<char>, Seq<char>)> {
    a.map_values(|p: (String, String)| (p.0@, p.1@))
}

pub open spec fn opt_string_v(o: Option<String>) -> Option<Seq<char>> {
    match o {
        Some(s) => Some(s@),
        None => None,
    }
}

impl View for Instr {
    type V = InstrV;

    open spec fn view(&self) -> InstrV {
        match self {
            Instr::Add { dest, lhs, rhs } => InstrV::Add { dest: dest@, lhs: lhs@, rhs: rhs@ },
            Instr::Sub { dest, lhs, rhs } => InstrV::Sub { dest: dest@, lhs: lhs@, rhs: rhs@ },
            Instr::Mul { dest, lhs, rhs } => InstrV::Mul { dest: dest@, lhs: lhs@, rhs: rhs@ },
            Instr::SDiv { dest, lhs, rhs } => InstrV::SDiv { dest: dest@, lhs: lhs@, rhs: rhs@ },
            Instr::SRem { dest, lhs, rhs } => InstrV::SRem { dest: dest@, lhs: lhs@, rhs: rhs@ },
            Instr::And { dest, lhs, rhs } => InstrV::And { dest: dest@, lhs: lhs@, rhs: rhs@ },
            Instr::Or { dest, lhs, rhs } => InstrV::Or { dest: dest@, lhs: lhs@, rhs: rhs@ },
            Instr::Xor { dest, lhs, rhs } => InstrV::Xor { dest: dest@, lhs: lhs@, rhs: rhs@ },
            Instr::ICmp { dest, pred, ty, lhs, rhs } => InstrV::ICmp {
                dest: dest@,
                pred: pred@,
                ty: *ty,
                lhs: lhs@,
                rhs: rhs@,
            },
            Instr::Call { dest, ret_ty, func, args } => InstrV::Call {
                dest: opt_string_v(*dest),
                ret_ty: *ret_ty,
                func: func@,
                args: typed_args_v(args@),
            },
            Instr::Alloca { dest, ty } => InstrV::Alloca { dest: dest@, ty: *ty },
            Instr::Store { ty, value, ptr } => InstrV::Store { ty: *ty, value: value@, ptr: ptr@ },
            Instr::Load { dest, ty, ptr } => InstrV::Load { dest: dest@, ty: *ty, ptr: ptr@ },
            Instr::Phi { dest, ty, incomings } => InstrV::Phi {
                dest: dest@,
                ty: *ty,
                incomings: incomings_v(incomings@),
            },
        }
    }
}

impl View for Terminator {
    type V = TerminatorV;

    open spec fn view(&self) -> TerminatorV {
        match self {
            Terminator::Ret { value } => TerminatorV::Ret { value: value@ },
            Terminator::Br { dest } => TerminatorV::Br { dest: dest@ },
            Terminator::CondBr { cond, then_dest, else_dest } => TerminatorV::CondBr {
                cond: cond@,
                then_dest: then_dest@,
                else_dest: else_dest@,
            },
        }
    }
}

pub open spec fn instrs_v(is: Seq<Instr>) -> Seq<InstrV> {
    is.map_values(|i: Instr| i@)
}

impl View for BasicBlock {
    type V = BasicBlockV;

    open spec fn view(&self) -> BasicBlockV {
        BasicBlockV { name: self.name@, instrs: instrs_v(self.instrs@), term: self.term@ }
    }
}

pub open spec fn blocks_v(bs: Seq<BasicBlock>) -> Seq<BasicBlockV> {
    bs.map_values(|b: BasicBlock| b@)
}

pub open spec fn ir_params_v(ps: Seq<Param>) -> Seq<ParamV> {
    ps.map_values(|p: Param| ParamV { name: p.name@, ty: p.ty })
}

impl View for Function {
    type V = FunctionV;

    open spec fn view(&self) -> FunctionV {
        FunctionV {
            name: self.name@,
            params: ir_params_v(self.params@),
            return_type: self.return_type,
            blocks: blocks_v(self.blocks@),
        }
    }
}

impl View for Module {
    type V = ModuleV;

    open spec fn view(&self) -> ModuleV {
        ModuleV { functions: self.functions@.map_values(|f: Function| f@) }
    }
}

// ---------------------------------------------------------------------------
// Text form
// ---------------------------------------------------------------------------

/// The IR name of a type: `i32`, `i1` for `bool`, `void` for the unit type.
pub open spec fn ty_text(t: Type) -> Seq<char> {
    match t {
        Type::I32 => "i32"@,
        Type::Bool => "i1"@,
        Type::Unit => "void"@,
    }
}

/// `dest = op ty lhs, rhs`
pub open spec fn binop_text(dest: Seq<char>, op_ty: Seq<char>, lhs: Seq<char>, rhs: Seq<char>) -> Seq<char> {
    dest + " = "@ + op_ty + lhs + ", "@ + rhs
}

/// Call arguments, `ty value`, separated by `", "`.
pub open spec fn args_text(xs: Seq<(Type, Seq<char>)>) -> Seq<char>
    decreases xs.len(),
{
    if xs.len() == 0 {
        seq![]
    } else if xs.len() == 1 {
        typed_arg_text(xs[0])
    } else {
        args_text(xs.drop_last()) + ", "@ + typed_arg_text(xs.last())
    }
}

/// Phi incomings, `[ value, %label ]`, separated by `", "`.
pub open spec fn incomings_text(xs: Seq<(Seq<char>, Seq<char>)>) -> Seq<char>
    decreases xs.len(),
{
    if xs.len() == 0 {
        seq![]
    } else if xs.len() == 1 {
        incoming_text(xs[0])
    } else {
        incomings_text(xs.drop_last()) + ", "@ + incoming_text(xs.last())
    }
}

/// Function parameters, `ty %name`, separated by `", "`.
pub open spec fn params_text(xs: Seq<ParamV>) -> Seq<char>
    decreases xs.len(),
{
    if xs.len() == 0 {
        seq![]
    } else if xs.len() == 1 {
        param_text(xs[0])
    } else {
        params_text(xs.drop_last()) + ", "@ + param_text(xs.last())
    }
}

pub open spec fn typed_arg_text(a: (Type, Seq<char>)) -> Seq<char> {
    ty_text(a.0) + " "@ + a.1
}

pub open spec fn incoming_text(a: (Seq<char>, Seq<char>)) -> Seq<char> {
    "[ "@ + a.0 + ", %"@ + a.1 + " ]"@
}

/// One instruction as a line of text (without indentation or newline).
pub open spec fn instr_text(i: InstrV) -> Seq<char> {
    match i {
        InstrV::Add { dest, lhs, rhs } => binop_text(dest, "add i32 "@, lhs, rhs),
        InstrV::Sub { dest, lhs, rhs } => binop_text(dest, "sub i32 "@, lhs, rhs),
        InstrV::Mul { dest, lhs, rhs } => binop_text(dest, "mul i32 "@, lhs, rhs),
        InstrV::SDiv { dest, lhs, rhs } => binop_text(dest, "sdiv i32 "@, lhs, rhs),
        InstrV::SRem { dest, lhs, rhs } => binop_text(dest, "srem i32 "@, lhs, rhs),
        InstrV::And { dest, lhs, rhs } => binop_text(dest, "and i1 "@, lhs, rhs),
        InstrV::Or { dest, lhs, rhs } => binop_text(dest, "or i1 "@, lhs, rhs),
        InstrV::Xor { dest, lhs, rhs } => binop_text(dest, "xor i1 "@, lhs, rhs),
        InstrV::ICmp { dest, pred, ty, lhs, rhs } => dest + " = icmp "@ + pred + " "@ + ty_text(ty) + " "@
            + lhs + ", "@ + rhs,
        InstrV::Call { dest, ret_ty, func, args } => {
            let call = "call "@ + ty_text(ret_ty) + " @"@ + func + "("@ + args_text(args) + ")"@;
            match dest {
                Some(d) => d + " = "@ + call,
                None => call,
            }
        },
        InstrV::Alloca { dest, ty } => dest + " = alloca "@ + ty_text(ty),
        InstrV::Store { ty, value, ptr } => "store "@ + ty_text(ty) + " "@ + value + ", "@ + ty_text(ty)
            + "* "@ + ptr,
        InstrV::Load { dest, ty, ptr } => dest + " = load "@ + ty_text(ty) + ", "@ + ty_text(ty) + "* "@
            + ptr,
        InstrV::Phi { dest, ty, incomings } => dest + " = phi "@ + ty_text(ty) + " "@ + incomings_text(incomings),
    }
}

/// A terminator as a line of text.
pub open spec fn term_text(t: TerminatorV) -> Seq<char> {
    match t {
        TerminatorV::Ret { value } => "ret i32 "@ + value,
        TerminatorV::Br { dest } => "br label %"@ + dest,
        TerminatorV::CondBr { cond, then_dest, else_dest } => "br i1 "@ + cond + ", label %"@ + then_dest
            + ", label %"@ + else_dest,
    }
}

/// The indented instruction lines of a block.
pub open spec fn instrs_text(is: Seq<InstrV>) -> Seq<char>
    decreases is.len(),
{
    if is.len() == 0 {
        seq![]
    } else {
        instrs_text(is.drop_last()) + "  "@ + instr_text(is.last()) + "\n"@
    }
}

/// A block: its label line, its instructions, its terminator and a blank line.
pub open spec fn block_text(b: BasicBlockV) -> Seq<char> {
    b.name + ":\n"@ + instrs_text(b.instrs) + "  "@ + term_text(b.term) + "\n"@ + "\n"@
}

pub open spec fn blocks_text(bs: Seq<BasicBlockV>) -> Seq<char>
    decreases bs.len(),
{
    if bs.len() == 0 {
        seq![]
    } else {
        blocks_text(bs.drop_last()) + block_text(bs.last())
    }
}

pub open spec fn param_text(p: ParamV) -> Seq<char> {
    ty_text(p.ty) + " %"@ + p.name
}

/// A function: `define <ret> @<name>(<params>) {`, its blocks, `}` and a blank line.
pub open spec fn function_text(f: FunctionV) -> Seq<char> {
    "define "@ + ty_text(f.return_type) + " @"@ + f.name + "("@ + params_text(f.params)
        + ") {\n"@ + blocks_text(f.blocks) + "}\n\n"@
}

pub open spec fn functions_text(fs: Seq<FunctionV>) -> Seq<char>
    decreases fs.len(),
{
    if fs.len() == 0 {
        seq![]
    } else {
        functions_text(fs.drop_last()) + function_text(fs.last())
    }
}

/// The text of a module: its functions one after another.
pub open spec fn module_text(m: ModuleV) -> Seq<char> {
    functions_text(m.functions)
}

// ---------------------------------------------------------------------------
// Rendering
// ---------------------------------------------------------------------------

fn ty_str(t: Type) -> (r: &'static str)
    ensures
        r@ == ty_text(t),
{
    match t {
        Type::I32 => "i32",
        Type::Bool => "i1",
        Type::Unit => "void",
    }
}

fn binop_string(dest: &String, op_ty: &str, lhs: &String, rhs: &String) -> (r: String)
    ensures
        r@ == binop_text(dest@, op_ty@, lhs@, rhs@),
{
    let mut s = String::new();
    s.append(dest.as_str());
    s.append(" = ");
    s.append(op_ty);
    s.append(lhs.as_str());
    s.append(", ");
    s.append(rhs.as_str());
    assert(s@ =~= binop_text(dest@, op_ty@, lhs@, rhs@));
    s
}

fn args_string(args: &Vec<(Type, String)>) -> (r: String)
    ensures
        r@ == args_text(typed_args_v(args@)),
{
    let mut s = String::new();
    let ghost av = typed_args_v(args@);
    let mut k: usize = 0;
    while k < args.len()
        invariant
            k <= args@.len(),
            av == typed_args_v(args@),
            av.len() == args@.len(),
            s@ == args_text(av.take(k as int)),
        decreases args@.len() - k,
    {
        assert(av.take(k + 1).drop_last() =~= av.take(k as int));
        assert(av.take(k + 1).last() == av[k as int]);
        if k > 0 {
            s.append(", ");
        }
        s.append(ty_str(args[k].0));
        s.append(" ");
        s.append(args[k].1.as_str());
        k = k + 1;
        proof {
            if k == 1 {
                assert(av.take(1)[0] == av[0]);
            }
            assert(s@ =~= args_text(av.take(k as int)));
        }
    }
    assert(av.take(args@.len() as int) =~= av);
    s
}

fn incomings_string(xs: &Vec<(String, String)>) -> (r: String)
    ensures
        r@ == incomings_text(incomings_v(xs@)),
{
    let mut s = String::new();
    let ghost av = incomings_v(xs@);
    let mut k: usize = 0;
    while k < xs.len()
        invariant
            k <= xs@.len(),
            av == incomings_v(xs@),
            av.len() == xs@.len(),
            s@ == incomings_text(av.take(k as int)),
        decreases xs@.len() - k,
    {
        assert(av.take(k + 1).drop_last() =~= av.take(k as int));
        assert(av.take(k + 1).last() == av[k as int]);
        if k > 0 {
            s.append(", ");
        }
        s.append("[ ");
        s.append(xs[k].0.as_str());
        s.append(", %");
        s.append(xs[k].1.as_str());
        s.append(" ]");
        k = k + 1;
        proof {
            if k == 1 {
                assert(av.take(1)[0] == av[0]);
            }
            assert(s@ =~= incomings_text(av.take(k as int)));
        }
    }
    assert(av.take(xs@.len() as int) =~= av);
    s
}

fn params_string(ps: &Vec<Param>) -> (r: String)
    ensures
        r@ == params_text(ir_params_v(ps@)),
{
    let mut s = String::new();
    let ghost av = ir_params_v(ps@);
    let mut k: usize = 0;
    while k < ps.len()
        invariant
            k <= ps@.len(),
            av == ir_params_v(ps@),
            av.len() == ps@.len(),
            s@ == params_text(av.take(k as int)),
        decreases ps@.len() - k,
    {
        assert(av.take(k + 1).drop_last() =~= av.take(k as int));
        assert(av.take(k + 1).last() == av[k as int]);
        if k > 0 {
            s.append(", ");
        }
        s.append(ty_str(ps[k].ty));
        s.append(" %");
        s.append(ps[k].name.as_str());
        k = k + 1;
        proof {
            if k == 1 {
                assert(av.take(1)[0] == av[0]);
            }
            assert(s@ =~= params_text(av.take(k as int)));
        }
    }
    assert(av.take(ps@.len() as int) =~= av);
    s
}

impl Instr {
    /// The instruction as a line of IR text; see `instr_text`.
    pub fn to_string(&self) -> (r: String)
        ensures
            r@ == instr_text(self@),
    {
        match self {
            Instr::Add { dest, lhs, rhs } => binop_string(dest, "add i32 ", lhs, rhs),
            Instr::Sub { dest, lhs, rhs } => binop_string(dest, "sub i32 ", lhs, rhs),
            Instr::Mul { dest, lhs, rhs } => binop_string(dest, "mul i32 ", lhs, rhs),
            Instr::SDiv { dest, lhs, rhs } => binop_string(dest, "sdiv i32 ", lhs, rhs),
            Instr::SRem { dest, lhs, rhs } => binop_string(dest, "srem i32 ", lhs, rhs),
            Instr::And { dest, lhs, rhs } => binop_string(dest, "and i1 ", lhs, rhs),
            Instr::Or { dest, lhs, rhs } => binop_string(dest, "or i1 ", lhs, rhs),
            Instr::Xor { dest, lhs, rhs } => binop_string(dest, "xor i1 ", lhs, rhs),
            Instr::ICmp { dest, pred, ty, lhs, rhs } => {
                let mut s = String::new();
                s.append(dest.as_str());
                s.append(" = icmp ");
                s.append(pred.as_str());
                s.append(" ");
                s.append(ty_str(*ty));
                s.append(" ");
                s.append(lhs.as_str());
                s.append(", ");
                s.append(rhs.as_str());
                assert(s@ =~= instr_text(self@));
                s
            },
            Instr::Call { dest, ret_ty, func, args } => {
                let mut s = String::new();
                match dest {
                    Some(d) => {
                        s.append(d.as_str());
                        s.append(" = ");
                    },
                    None => {},
                }
                let ghost pre = s@;
                s.append("call ");
                s.append(ty_str(*ret_ty));
                s.append(" @");
                s.append(func.as_str());
                s.append("(");
                let a = args_string(args);
                s.append(a.as_str());
                s.append(")");
                assert(s@ =~= instr_text(self@));
                s
            },
            Instr::Alloca { dest, ty } => {
                let mut s = String::new();
                s.append(dest.as_str());
                s.append(" = alloca ");
                s.append(ty_str(*ty));
                assert(s@ =~= instr_text(self@));
                s
            },
            Instr::Store { ty, value, ptr } => {
                let mut s = String::new();
                s.append("store ");
                s.append(ty_str(*ty));
                s.append(" ");
                s.append(value.as_str());
                s.append(", ");
                s.append(ty_str(*ty));
                s.append("* ");
                s.append(ptr.as_str());
                assert(s@ =~= instr_text(self@));
                s
            },
            Instr::Load { dest, ty, ptr } => {
                let mut s = String::new();
                s.append(dest.as_str());
                s.append(" = load ");
                s.append(ty_str(*ty));
                s.append(", ");
                s.append(ty_str(*ty));
                s.append("* ");
                s.append(ptr.as_str());
                assert(s@ =~= instr_text(self@));
                s
            },
            Instr::Phi { dest, ty, incomings } => {
                let mut s = String::new();
                s.append(dest.as_str());
                s.append(" = phi ");
                s.append(ty_str(*ty));
                s.append(" ");
                let a = incomings_string(incomings);
                s.append(a.as_str());
                assert(s@ =~= instr_text(self@));
                s
            },
        }
    }
}

impl Terminator {
    /// The terminator as a line of IR text; see `term_text`.
    pub fn to_string(&self) -> (r: String)
        ensures
            r@ == term_text(self@),
    {
        let mut s = String::new();
        match self {
            Terminator::Ret { value } => {
                s.append("ret i32 ");
                s.append(value.as_str());
            },
            Terminator::Br { dest } => {
                s.append("br label %");
                s.append(dest.as_str());
            },
            Terminator::CondBr { cond, then_dest, else_dest } => {
                s.append("br i1 ");
                s.append(cond.as_str());
                s.append(", label %");
                s.append(then_dest.as_str());
                s.append(", label %");
                s.append(else_dest.as_str());
            },
        }
        assert(s@ =~= term_text(self@));
        s
    }
}

fn block_string(b: &BasicBlock) -> (r: String)
    ensures
        r@ == block_text(b@),
{
    let mut s = String::new();
    s.append(b.name.as_str());
    s.append(":\n");
    let ghost head = s@;
    let ghost iv = instrs_v(b.instrs@);
    let mut k: usize = 0;
    while k < b.instrs.len()
        invariant
            k <= b.instrs@.len(),
            iv == instrs_v(b.instrs@),
            iv.len() == b.instrs@.len(),
            s@ == head + instrs_text(iv.take(k as int)),
        decreases b.instrs@.len() - k,
    {
        assert(iv.take(k + 1).drop_last() =~= iv.take(k as int));
        assert(iv.take(k + 1).last() == iv[k as int]);
        s.append("  ");
        let line = b.instrs[k].to_string();
        s.append(line.as_str());
        s.append("\n");
        k = k + 1;
        assert(s@ =~= head + instrs_text(iv.take(k as int)));
    }
    assert(iv.take(b.instrs@.len() as int) =~= iv);
    s.append("  ");
    let t = b.term.to_string();
    s.append(t.as_str());
    s.append("\n");
    s.append("\n");
    assert(s@ =~= block_text(b@));
    s
}

fn function_string(f: &Function) -> (r: String)
    ensures
        r@ == function_text(f@),
{
    let mut s = String::new();
    s.append("define ");
    s.append(ty_str(f.return_type));
    s.append(" @");
    s.append(f.name.as_str());
    s.append("(");
    let ps = params_string(&f.params);
    s.append(ps.as_str());
    s.append(") {\n");
    let ghost head = s@;
    let ghost bv = blocks_v(f.blocks@);
    let mut k: usize = 0;
    while k < f.blocks.len()
        invariant
            k <= f.blocks@.len(),
            bv == blocks_v(f.blocks@),
            bv.len() == f.blocks@.len(),
            s@ == head + blocks_text(bv.take(k as int)),
        decreases f.blocks@.len() - k,
    {
        assert(bv.take(k + 1).drop_last() =~= bv.take(k as int));
        assert(bv.take(k + 1).last() == bv[k as int]);
        let t = block_string(&f.blocks[k]);
        s.append(t.as_str());
        k = k + 1;
        assert(s@ =~= head + blocks_text(bv.take(k as int)));
    }
    assert(bv.take(f.blocks@.len() as int) =~= bv);
    s.append("}\n\n");
    assert(s@ =~= function_text(f@));
    s
}

impl Module {
    /// The module as LLVM IR text; see `module_text`.
    pub fn to_string(&self) -> (r: String)
        ensures
            r@ == module_text(self@),
    {
        let mut s = String::new();
        let ghost fv = self@.functions;
        let mut k: usize = 0;
        while k < self.functions.len()
            invariant
                k <= self.functions@.len(),
                fv == self@.functions,
                fv.len() == self.functions@.len(),
                s@ == functions_text(fv.take(k as int)),
            decreases self.functions@.len() - k,
        {
            assert(fv.take(k + 1).drop_last() =~= fv.take(k as int));
            assert(fv.take(k + 1).last() == fv[k as int]);
            let t = function_string(&self.functions[k]);
            s.append(t.as_str());
            k = k + 1;
            assert(s@ =~= functions_text(fv.take(k as int)));
        }
        assert(fv.take(self.functions@.len() as int) =~= fv);
        s
    }
}

} // verus!
