use aicomputer::compiler::codegen::lower_to_ir;
use aicomputer::compiler::lexer::lex;
use aicomputer::compiler::parser::parse;
use aicomputer::compiler::sema::analyze;
use aicomputer::vm::ir::{Instr, ModuleRef, Operand, Terminator, Type};

fn compile(source: &str) -> String {
    let tokens = lex(source).expect("lex");
    let ast = parse(&tokens).expect("parse");
    let checked = analyze(ast).expect("analyze");
    lower_to_ir(checked).expect("lower").to_string()
}

#[test]
fn compiled_function_reads_back_whole() {
    let text = compile("fn add(x: i32, y: i32) -> i32 { x + y }\nfn main() -> bool { add(1, 2) == 3 }");
    let m = ModuleRef::from_ll_text(&text).unwrap().module;
    assert_eq!(m.functions.len(), 2);
    let add = &m.functions[0];
    assert_eq!(add.name, "add");
    assert_eq!(add.return_type, Type::I32);
    assert_eq!(add.params.len(), 2);
    assert_eq!(add.params[0].name, "x");
    assert_eq!(add.params[1].name, "y");
    assert_eq!(add.blocks.len(), 1);
    assert_eq!(add.blocks[0].name, "entry");
    assert!(matches!(
        &add.blocks[0].instrs[0],
        Instr::Add { dest, lhs: Operand::Local(l), rhs: Operand::Local(r) } if dest == "t1" && l == "x" && r == "y"
    ));
    assert!(matches!(&add.blocks[0].term, Terminator::Ret { value: Operand::Local(v) } if v == "t1"));
    let main = &m.functions[1];
    assert_eq!(main.return_type, Type::I1);
    match &main.blocks[0].instrs[0] {
        Instr::Call { dest: Some(d), func, args } => {
            assert_eq!(d, "t1");
            assert_eq!(func, "add");
            assert!(matches!(args[..], [Operand::ConstInt(1), Operand::ConstInt(2)]));
        }
        other => panic!("unexpected {:?}", other),
    }
}

#[test]
fn compiled_control_flow_reads_back() {
    let text = compile("fn main() -> i32 { let x: i32 = 3; if x < 4 { x } else { 0 } }");
    let m = ModuleRef::from_ll_text(&text).unwrap().module;
    let names: Vec<&str> = m.functions[0].blocks.iter().map(|b| b.name.as_str()).collect();
    assert_eq!(names, vec!["entry", "then1", "else2", "merge3"]);
    assert!(matches!(
        &m.functions[0].blocks[0].term,
        Terminator::CondBr { then_dest, else_dest, .. } if then_dest == "then1" && else_dest == "else2"
    ));
    assert!(matches!(&m.functions[0].blocks[3].instrs[0], Instr::Phi { incomings, .. } if incomings.len() == 2));
}

#[test]
fn unit_values_read_back() {
    // Comparing two unit values lowers to `icmp eq void ...`; a unit-valued
    // `if` merges with `phi void`.
    let text = compile("fn main() -> i32 { if (while false { 0 }) == (while false { 0 }) { 1 } else { 0 } }");
    assert!(text.contains("icmp eq void 0, 0"));
    let m = ModuleRef::from_ll_text(&text).expect("reads back").module;
    assert!(m.functions[0].blocks.iter().any(|b| b.instrs.iter().any(|i| matches!(i, Instr::ICmp { lhs: Operand::ConstInt(0), rhs: Operand::ConstInt(0), .. }))));
    let text2 = compile("fn main() -> i32 { if true { while false { 0 } } else { while false { 0 } }; 4 }");
    assert!(text2.contains("phi void"));
    assert!(ModuleRef::from_ll_text(&text2).is_ok());
}

#[test]
fn identifier_names_read_back_as_written() {
    let text = compile("fn step_2(_n0: i32) -> i32 { let acc_1: i32 = _n0 * 2; acc_1 }\nfn main() -> i32 { step_2(21) }");
    let m = ModuleRef::from_ll_text(&text).expect("reads back").module;
    assert_eq!(m.functions.len(), 2);
    let f = &m.functions[0];
    assert_eq!(f.name, "step_2");
    assert_eq!(f.params[0].name, "_n0");
    assert!(text.contains("%acc_1.addr = alloca i32"));
    assert!(matches!(&m.functions[1].blocks[0].instrs[0], Instr::Call { func, .. } if func == "step_2"));
}

#[test]
fn every_phi_names_blocks_that_branch_to_it() {
    let text = compile(
        "fn main() -> i32 { let a: i32 = if true { if false { 1 } else { while false { 0 }; 2 } } else { 3 }; if a > 1 { { let b: i32 = a; b } } else { 0 } }",
    );
    let m = ModuleRef::from_ll_text(&text).expect("reads back").module;
    let mut phis = 0;
    for f in m.functions.iter() {
        for b in f.blocks.iter() {
            for i in b.instrs.iter() {
                if let Instr::Phi { incomings, .. } = i {
                    for (_, label) in incomings.iter() {
                        phis += 1;
                        let pred = f.blocks.iter().find(|p| &p.name == label).expect("label names a block");
                        let targets = match &pred.term {
                            Terminator::Br { dest } => dest == &b.name,
                            Terminator::CondBr { then_dest, else_dest, .. } => then_dest == &b.name || else_dest == &b.name,
                            Terminator::Ret { .. } => false,
                        };
                        assert!(targets, "{} does not branch to {}", label, b.name);
                    }
                }
            }
        }
    }
    assert_eq!(phis, 6);
}
