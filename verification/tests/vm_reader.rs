use aicomputer::vm::ir::{ICmpPred, Instr, ModuleRef, Operand, Terminator, Type};
use aicomputer::vm::loader::load_modules;
use aicomputer::vm::reader::{parse_module, IrParseError};

fn err(text: &str) -> IrParseError {
    match parse_module(text) {
        Err(e) => e,
        Ok(m) => panic!("expected an error, read {:?}", m),
    }
}

fn body(lines: &str) -> String {
    format!("define i32 @f() {{\nentry:\n{}\n}}\n", lines)
}

#[test]
fn reads_a_small_module() {
    let text = "; a comment line\n\ndefine i32 @add(i32 %x, i32 %y) {  ; trailing comment\nentry:\n  %t1 = add i32 %x, %y\n  ret i32 %t1\n}\n\nignored line\ndefine i1 @g() {\nstart:\n  ret i1 true\n}\n";
    let m = parse_module(text).unwrap();
    assert_eq!(m.functions.len(), 2);
    let f = &m.functions[0];
    assert_eq!(f.name, "add");
    assert_eq!(f.return_type, Type::I32);
    assert_eq!(f.params.len(), 2);
    assert_eq!(f.params[0].name, "x");
    assert_eq!(f.params[1].ty, Type::I32);
    assert_eq!(f.blocks.len(), 1);
    assert_eq!(f.blocks[0].name, "entry");
    match &f.blocks[0].instrs[0] {
        Instr::Add { dest, lhs: Operand::Local(l), rhs: Operand::Local(r) } => {
            assert_eq!(dest, "t1");
            assert_eq!(l, "x");
            assert_eq!(r, "y");
        }
        other => panic!("unexpected {:?}", other),
    }
    assert!(matches!(&f.blocks[0].term, Terminator::Ret { value: Operand::Local(v) } if v == "t1"));
    assert_eq!(m.functions[1].name, "g");
    assert_eq!(m.functions[1].return_type, Type::I1);
    assert!(matches!(&m.functions[1].blocks[0].term, Terminator::Ret { value: Operand::ConstBool(true) }));
}

#[test]
fn reads_every_instruction_form() {
    let text = body(
        "  %a = sub i32 5, -3\n  %b = mul i32 %a, +2\n  %c = sdiv i32 %b, 2\n  %d = srem i32 %b, 3\n  %e = and i1 true, false\n  %f = or i1 %e, true\n  %g = xor i1 %f, %e\n  %h = icmp ule i32 %a, %b\n  %i = call i32 @k(i32 1, i1 true)\n  %p = alloca i32\n  store i32 %a, i32* %p\n  %l = load i32, i32* %p\n  br i1 %h, label %yes, label %no",
    );
    let m = parse_module(&text).unwrap();
    let is = &m.functions[0].blocks[0].instrs;
    assert_eq!(is.len(), 12);
    assert!(matches!(&is[0], Instr::Sub { lhs: Operand::ConstInt(5), rhs: Operand::ConstInt(-3), .. }));
    assert!(matches!(&is[1], Instr::Mul { rhs: Operand::ConstInt(2), .. }));
    assert!(matches!(&is[2], Instr::SDiv { .. }));
    assert!(matches!(&is[3], Instr::SRem { .. }));
    assert!(matches!(&is[4], Instr::And { lhs: Operand::ConstBool(true), rhs: Operand::ConstBool(false), .. }));
    assert!(matches!(&is[5], Instr::Or { .. }));
    assert!(matches!(&is[6], Instr::Xor { .. }));
    assert!(matches!(&is[7], Instr::ICmp { pred: ICmpPred::ULE, .. }));
    match &is[8] {
        Instr::Call { dest: Some(d), func, args } => {
            assert_eq!(d, "i");
            assert_eq!(func, "k");
            assert_eq!(args.len(), 2);
            assert!(matches!(args[0], Operand::ConstInt(1)));
            assert!(matches!(args[1], Operand::ConstBool(true)));
        }
        other => panic!("unexpected {:?}", other),
    }
    assert!(matches!(&is[9], Instr::Alloca { dest } if dest == "p"));
    assert!(matches!(&is[10], Instr::Store { value: Operand::Local(v), ptr: Operand::Local(p) } if v == "a" && p == "p"));
    assert!(matches!(&is[11], Instr::Load { dest, ptr: Operand::Local(p) } if dest == "l" && p == "p"));
    assert!(matches!(
        &m.functions[0].blocks[0].term,
        Terminator::CondBr { cond: Operand::Local(c), then_dest, else_dest } if c == "h" && then_dest == "yes" && else_dest == "no"
    ));
}

#[test]
fn reads_phi_labels_and_unset_terminators() {
    let text = "define i32 @f() {\nentry:\n  br label %join\nempty::\njoin:\n  %x = phi i32 [ 1, %entry ], [ %y, %empty ]\n  ret i32 %x\n}\n";
    let m = parse_module(text).unwrap();
    let bs = &m.functions[0].blocks;
    assert_eq!(bs.len(), 3);
    assert!(matches!(&bs[0].term, Terminator::Br { dest } if dest == "join"));
    assert_eq!(bs[1].name, "empty");
    assert!(bs[1].instrs.is_empty());
    assert!(matches!(&bs[1].term, Terminator::Br { dest } if dest == "__unset__"));
    match &bs[2].instrs[0] {
        Instr::Phi { dest, incomings } => {
            assert_eq!(dest, "x");
            assert_eq!(incomings.len(), 2);
            assert!(matches!(&incomings[0].0, Operand::ConstInt(1)));
            assert_eq!(incomings[0].1, "entry");
            assert!(matches!(&incomings[1].0, Operand::Local(y) if y == "y"));
            assert_eq!(incomings[1].1, "empty");
        }
        other => panic!("unexpected {:?}", other),
    }
}

#[test]
fn reads_crlf_lines_and_void_functions() {
    let text = "define void @v() {\r\nentry:\r\n  call void @w()\r\n  ret i32 0\r\n}\r\n";
    let m = parse_module(text);
    // `call` without a destination is not an assignment.
    assert!(matches!(m, Err(IrParseError::ExpectedAssignment)));
    let ok = parse_module("define void @v() {\r\nentry:\r\n  ret i32 0\r\n}\r\n").unwrap();
    assert_eq!(ok.functions[0].return_type, Type::Void);
}

#[test]
fn empty_text_is_an_empty_module() {
    assert_eq!(parse_module("").unwrap().functions.len(), 0);
    assert_eq!(parse_module("; only a comment\n\n").unwrap().functions.len(), 0);
}

#[test]
fn signature_errors() {
    assert!(matches!(err("define i32 f() {\n}\n"), IrParseError::MissingFunctionName));
    assert!(matches!(err("define i8 @f() {\n}\n"), IrParseError::UnsupportedType(t) if t == "i8"));
    assert!(matches!(err("define i32 @f {\n}\n"), IrParseError::MissingLParen));
    assert!(matches!(err("define i32 @f( {\n}\n"), IrParseError::MissingRParen));
    assert!(matches!(err("define i32 @f)( {\n}\n"), IrParseError::MisplacedRParen));
    assert!(matches!(err("define i32 @f(i32 %a, ) {\n}\n"), IrParseError::BadParam));
    assert!(matches!(err("define i32 @f(i32) {\n}\n"), IrParseError::BadParamName));
    assert!(matches!(err("define i32 @f(u8 %a) {\n}\n"), IrParseError::UnsupportedType(t) if t == "u8"));
}

#[test]
fn structure_errors() {
    assert!(matches!(err("define i32 @f() {\nentry:\n  ret i32 0\n"), IrParseError::UnterminatedFunction));
    assert!(matches!(err("define i32 @f() {\n  ret i32 0\n}\n"), IrParseError::InstructionOutsideBlock));
    assert!(matches!(err(&body("  %x = frob i32 1, 2")), IrParseError::UnsupportedInstruction(l) if l == "%x = frob i32 1, 2"));
    assert!(matches!(err(&body("  nonsense")), IrParseError::ExpectedAssignment));
}

#[test]
fn operand_errors() {
    assert!(matches!(err(&body("  %x = add i32 1")), IrParseError::ExpectedTwoOperands));
    assert!(matches!(err(&body("  %x = add i32 1, abc")), IrParseError::BadInt(s) if s == "abc"));
    assert!(matches!(err(&body("  %x = add i32 1, 99999999999999999999")), IrParseError::BadInt(_)));
    assert!(matches!(err(&body("  ret i32")), IrParseError::BadInt(s) if s.is_empty()));
    assert!(matches!(err(&body("  %x = icmp foo i32 1, 2")), IrParseError::UnsupportedPredicate(p) if p == "foo"));
}

#[test]
fn call_errors() {
    assert!(matches!(err(&body("  %x = call i32 k(i32 1)")), IrParseError::CallMissingAt));
    assert!(matches!(err(&body("  %x = call i32 @k i32 1)")), IrParseError::CallMissingLParen));
    assert!(matches!(err(&body("  %x = call i32 @k(i32 1")), IrParseError::CallMissingRParen));
    assert!(matches!(err(&body("  %x = call i32 @k)(")), IrParseError::CallMisplacedRParen));
    assert!(matches!(err(&body("  %x = call i32 @k(i32 1, )")), IrParseError::BadCallArg));
    assert!(matches!(err(&body("  %x = call i32 @k(i32)")), IrParseError::BadCallArgValue));
}

#[test]
fn memory_and_phi_errors() {
    assert!(matches!(err(&body("  %x = load i32")), IrParseError::BadLoad));
    assert!(matches!(err(&body("  store i32 1")), IrParseError::BadStore));
    assert!(matches!(err(&body("  %x = phi i32 [ 1 ]")), IrParseError::BadPhiIncoming));
    assert!(matches!(err(&body("  %x = phi i32 [ 1, %a")), IrParseError::BadPhi));
}

#[test]
fn branch_errors() {
    assert!(matches!(err(&body("  br %somewhere")), IrParseError::UnsupportedBr(l) if l == "br %somewhere"));
    assert!(matches!(err(&body("  br i1 %c")), IrParseError::BadCondBr));
    assert!(matches!(err(&body("  br i1 %c, label %a")), IrParseError::BadCondBr));
    assert!(matches!(err(&body("  br i1 %c, %a, label %b")), IrParseError::BadTrueDest));
    assert!(matches!(err(&body("  br i1 %c, label %a, %b")), IrParseError::BadFalseDest));
}

#[test]
fn module_ref_and_loader() {
    let m = ModuleRef::from_ll_text("define i32 @main() {\nentry:\n  ret i32 1\n}\n").unwrap();
    assert_eq!(m.module.functions.len(), 1);
    let deps = vec!["define i32 @a() {\nentry:\n  ret i32 2\n}\n".to_string(), "bad\ndefine i32 @b() {\n".to_string()];
    match load_modules("define i32 @main() {\nentry:\n  ret i32 1\n}\n", &deps) {
        Err((k, IrParseError::UnterminatedFunction)) => assert_eq!(k, 2),
        other => panic!("unexpected {:?}", other.map(|v| v.len())),
    }
    let ms = load_modules("define i32 @main() {\nentry:\n  ret i32 1\n}\n", &deps[..1]).unwrap();
    assert_eq!(ms.len(), 2);
    assert_eq!(ms[1].module.functions[0].name, "a");
    assert!(matches!(load_modules("define i32 f() {\n}\n", &[]), Err((0, IrParseError::MissingFunctionName))));
}

#[test]
fn reads_void_typed_store_and_load() {
    let m = parse_module("define i32 @main() {\nentry:\n  %p = alloca void\n  store void 0, void* %p\n  %v = load void, void* %p\n  ret i32 %v\n}\n").unwrap();
    assert_eq!(m.functions[0].blocks[0].instrs.len(), 3);
}
