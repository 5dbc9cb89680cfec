use aicomputer::compiler::codegen::lower_to_ir;
use aicomputer::compiler::lexer::lex;
use aicomputer::compiler::parser::parse;
use aicomputer::compiler::sema::analyze;
use aicomputer::vm::interpreter::{program_well_formed, Interpreter, RunError};
use aicomputer::vm::ir::ModuleRef;
use aicomputer::vm::linker::link_modules;
use aicomputer::vm::vm::Vm;

fn compile(source: &str) -> String {
    let tokens = lex(source).expect("lex");
    let ast = parse(&tokens).expect("parse");
    let checked = analyze(ast).expect("analyze");
    let ir = lower_to_ir(checked).expect("lower");
    ir.to_string()
}

fn run_texts(texts: &[String]) -> Result<i32, RunError> {
    let mut modules = Vec::new();
    for t in texts {
        modules.push(ModuleRef::from_ll_text(t).expect("read"));
    }
    let linked = link_modules(modules).expect("link");
    assert!(program_well_formed(&linked));
    let vm = Vm::new(linked);
    let mut interp = Interpreter::new(&vm);
    interp.run_main()
}

fn compile_and_run(source: &str) -> Result<i32, RunError> {
    let text = compile(source);
    run_texts(&[text])
}

#[test]
fn fact_of_five_is_120() {
    let src = "fn fact(n: i32) -> i32 {\n    if n <= 1 { 1 } else { n * fact(n - 1) }\n}\n\nfn main() -> i32 {\n    fact(5)\n}\n";
    assert_eq!(compile_and_run(src).unwrap(), 120);
}

#[test]
fn let_and_if_expression() {
    let src = "fn main() -> i32 {\n    let x: i32 = 10;\n    let y: i32 = if x > 5 { x + 1 } else { x - 1 };\n    y * 2\n}\n";
    assert_eq!(compile_and_run(src).unwrap(), 22);
}

#[test]
fn arithmetic_and_call() {
    let src = "fn add(x: i32, y: i32) -> i32 {\n    x + y\n}\n\nfn main() -> i32 {\n    let a: i32 = 20;\n    let b: i32 = 22;\n    add(a, b) * 2 - 2\n}\n";
    assert_eq!(compile_and_run(src).unwrap(), 82);
}

#[test]
fn block_expression() {
    let src = "fn main() -> i32 {\n    let v: i32 = {\n        let a: i32 = 10;\n        let b: i32 = 20;\n        a + b\n    };\n    v\n}\n";
    assert_eq!(compile_and_run(src).unwrap(), 30);
}

#[test]
fn bool_logic() {
    let src = "fn main() -> i32 {\n    let a: bool = true;\n    let b: bool = false;\n    let c: bool = (a && !b) || (a == b);\n    if c { 1 } else { 0 }\n}\n";
    assert_eq!(compile_and_run(src).unwrap(), 1);
}

#[test]
fn all_operators() {
    let src = "fn main() -> i32 {\n    let a: i32 = 10;\n    let b: i32 = 3;\n\n    let add: i32 = a + b;   // 13\n    let sub: i32 = a - b;   // 7\n    let mul: i32 = a * b;   // 30\n    let div: i32 = a / b;   // 3\n    let rem: i32 = a % b;   // 1\n\n    let lt: bool = a < b;\n    let le: bool = a <= b;\n    let gt: bool = a > b;\n    let ge: bool = a >= b;\n    let eq: bool = a == b;\n    let ne: bool = a != b;\n\n    let logic: bool = (gt && ge) || (!lt && ne);\n\n    if logic { add + sub + mul + div + rem } else { 0 }\n}\n";
    assert_eq!(compile_and_run(src).unwrap(), 54);
}

#[test]
fn while_statement() {
    let src = "fn main() -> i32 {\n    let i: i32 = 0;\n    while false { 0 };\n    i + 42\n}\n";
    assert_eq!(compile_and_run(src).unwrap(), 42);
}

#[test]
fn functions_linked_across_modules() {
    let main_src = "fn main() -> i32 {\n    add(40, 2)\n}\nfn add(x: i32, y: i32) -> i32 { x + y }\n";
    let text = compile(main_src);
    let lib = "define i32 @twice(i32 %x) {\nentry:\n  %r = mul i32 %x, 2\n  ret i32 %r\n}\n".to_string();
    assert_eq!(run_texts(&[text, lib]).unwrap(), 42);
}

#[test]
fn nested_if_merges_through_inner_merge_block() {
    assert_eq!(compile_and_run("fn main() -> i32 { if true { if false { 1 } else { 2 } } else { 3 } }").unwrap(), 2);
    assert_eq!(compile_and_run("fn main() -> i32 { if false { 0 } else { if true { 7 } else { 8 } } }").unwrap(), 7);
    let text = compile("fn main() -> i32 { if true { if false { 1 } else { 2 } } else { 3 } }");
    assert!(text.contains("phi i32 [ %t1, %merge6 ], [ 3, %else2 ]"));
}

#[test]
fn inner_block_shadow_ends_with_its_block() {
    assert_eq!(
        compile_and_run("fn main() -> i32 { let x: i32 = 1; let y: i32 = { let x: i32 = 2; x }; x }").unwrap(),
        1
    );
    assert_eq!(
        compile_and_run("fn main() -> i32 { let x: i32 = 1; let y: i32 = { let x: i32 = 2; x }; x * 10 + y }").unwrap(),
        12
    );
}

#[test]
fn let_initializer_reads_the_outer_binding() {
    assert_eq!(compile_and_run("fn f(x: i32) -> i32 { let x: i32 = x + 1; x }\nfn main() -> i32 { f(41) }").unwrap(), 42);
    assert_eq!(
        compile_and_run("fn main() -> i32 { let x: i32 = 5; let y: i32 = { let x: i32 = x * 2; x }; y + x }").unwrap(),
        15
    );
    let text = compile("fn f(x: i32) -> i32 { let x: i32 = x + 1; x }\nfn main() -> i32 { f(41) }");
    assert!(text.contains("%t1 = add i32 %x, 1"));
    assert!(text.contains("store i32 %t1, i32* %x.addr"));
}

#[test]
fn sibling_blocks_share_the_slot_of_a_name() {
    let src = "fn main() -> i32 { let a: i32 = { let x: i32 = 1; x }; let b: i32 = { let x: i32 = 2; x }; a + b }";
    let text = compile(src);
    assert_eq!(text.matches("%x.addr = alloca i32").count(), 1);
    assert_eq!(text.matches("alloca").count(), 3);
    assert!(!text.contains("%x.addr2"));
    assert_eq!(compile_and_run(src).unwrap(), 3);
    let shadow = compile("fn main() -> i32 { let x: i32 = 1; let y: i32 = { let x: i32 = 2; x }; x + y }");
    assert_eq!(shadow.matches("alloca").count(), 3);
    assert!(shadow.contains("%x.addr = alloca i32"));
    assert!(shadow.contains("%x.addr1 = alloca i32"));
}

#[test]
fn unit_values_compare_equal_when_run() {
    assert_eq!(
        compile_and_run("fn main() -> i32 { if (while false { 0 }) == (while false { 0 }) { 1 } else { 0 } }").unwrap(),
        1
    );
    assert_eq!(compile_and_run("fn main() -> i32 { if true { while false { 0 } } else { while false { 0 } }; 4 }").unwrap(), 4);
}
