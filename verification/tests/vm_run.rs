use aicomputer::vm::interpreter::{program_well_formed, Interpreter, OpKind, RunError};
use aicomputer::vm::ir::ModuleRef;
use aicomputer::vm::linker::{link_modules, FunctionRef, LinkError};
use aicomputer::vm::memory::Memory;
use aicomputer::vm::value::Value;
use aicomputer::vm::vm::Vm;

fn run_fuel(texts: &[&str], fuel: u64) -> Result<i32, RunError> {
    let modules: Vec<ModuleRef> = texts.iter().map(|t| ModuleRef::from_ll_text(t).expect("read")).collect();
    let linked = link_modules(modules).expect("link");
    assert!(program_well_formed(&linked));
    let vm = Vm::new(linked);
    let mut interp = Interpreter::new(&vm);
    interp.run_main_with_fuel(fuel)
}

fn run(text: &str) -> Result<i32, RunError> {
    let modules = vec![ModuleRef::from_ll_text(text).expect("read")];
    let linked = link_modules(modules).expect("link");
    assert!(program_well_formed(&linked));
    let vm = Vm::new(linked);
    let mut interp = Interpreter::new(&vm);
    interp.run_main()
}

fn main_of(lines: &str) -> String {
    format!("define i32 @main() {{\nentry:\n{}\n}}\n", lines)
}

#[test]
fn arithmetic_wraps() {
    assert_eq!(run(&main_of("  %a = add i32 2147483647, 1\n  ret i32 %a")).unwrap(), i32::MIN);
    assert_eq!(run(&main_of("  %a = sub i32 -2147483648, 1\n  ret i32 %a")).unwrap(), i32::MAX);
    assert_eq!(run(&main_of("  %a = mul i32 65536, 65536\n  ret i32 %a")).unwrap(), 0);
}

#[test]
fn division_truncates_toward_zero() {
    assert_eq!(run(&main_of("  %a = sdiv i32 -7, 2\n  ret i32 %a")).unwrap(), -3);
    assert_eq!(run(&main_of("  %a = srem i32 -7, 2\n  ret i32 %a")).unwrap(), -1);
    assert_eq!(run(&main_of("  %a = srem i32 7, -2\n  ret i32 %a")).unwrap(), 1);
}

#[test]
fn division_errors() {
    assert!(matches!(run(&main_of("  %a = sdiv i32 1, 0\n  ret i32 %a")), Err(RunError::DivisionByZero)));
    assert!(matches!(run(&main_of("  %a = srem i32 1, 0\n  ret i32 %a")), Err(RunError::DivisionByZero)));
    assert!(matches!(
        run(&main_of("  %a = sdiv i32 -2147483648, -1\n  ret i32 %a")),
        Err(RunError::DivisionOverflow)
    ));
}

#[test]
fn comparisons_and_branches() {
    let prog = |pred: &str, a: &str, b: &str| {
        main_of(&format!(
            "  %c = icmp {} i32 {}, {}\n  br i1 %c, label %yes, label %no\nyes:\n  ret i32 1\nno:\n  ret i32 0",
            pred, a, b
        ))
    };
    assert_eq!(run(&prog("slt", "-1", "1")).unwrap(), 1);
    assert_eq!(run(&prog("ult", "-1", "1")).unwrap(), 0);
    assert_eq!(run(&prog("ugt", "-1", "1")).unwrap(), 1);
    assert_eq!(run(&prog("sge", "3", "3")).unwrap(), 1);
    assert_eq!(run(&prog("sgt", "3", "3")).unwrap(), 0);
    assert_eq!(run(&prog("eq", "4", "4")).unwrap(), 1);
    assert_eq!(run(&prog("ne", "4", "4")).unwrap(), 0);
    assert_eq!(run(&prog("sle", "5", "4")).unwrap(), 0);
    assert_eq!(run(&prog("uge", "0", "0")).unwrap(), 1);
    assert_eq!(run(&prog("ule", "1", "-1")).unwrap(), 1);
    assert_eq!(run(&prog("eq", "true", "true")).unwrap(), 1);
    assert!(matches!(run(&prog("sgt", "true", "false")), Err(RunError::IcmpPredicateNotForI1)));
    assert!(matches!(run(&prog("eq", "true", "1")), Err(RunError::IcmpTypeMismatch)));
}

#[test]
fn logic_operators() {
    let prog = main_of("  %a = and i1 true, false\n  %b = or i1 %a, true\n  %c = xor i1 %b, true\n  br i1 %c, label %t, label %f\nt:\n  ret i32 1\nf:\n  ret i32 2");
    assert_eq!(run(&prog).unwrap(), 2);
    assert!(matches!(
        run(&main_of("  %a = and i1 1, true\n  ret i32 0")),
        Err(RunError::BadOperands(OpKind::And))
    ));
    assert!(matches!(
        run(&main_of("  %a = add i32 true, 1\n  ret i32 0")),
        Err(RunError::BadOperands(OpKind::Add))
    ));
}

#[test]
fn stack_slots() {
    let prog = main_of("  %p = alloca i32\n  %z = load i32, i32* %p\n  store i32 5, i32* %p\n  %v = load i32, i32* %p\n  %s = add i32 %v, %z\n  ret i32 %s");
    assert_eq!(run(&prog).unwrap(), 5);
    assert!(matches!(run(&main_of("  store i32 1, i32* 2\n  ret i32 0")), Err(RunError::StoreExpectsPointer)));
    assert!(matches!(run(&main_of("  %v = load i32, i32* 3\n  ret i32 0")), Err(RunError::LoadExpectsPointer)));
}

#[test]
fn phi_chooses_by_predecessor() {
    let prog = "define i32 @main() {\nentry:\n  br i1 false, label %a, label %b\na:\n  br label %join\nb:\n  br label %join\njoin:\n  %x = phi i32 [ 10, %a ], [ 20, %b ]\n  ret i32 %x\n}\n";
    assert_eq!(run(prog).unwrap(), 20);
    assert!(matches!(run(&main_of("  %x = phi i32 [ 1, %a ]\n  ret i32 %x")), Err(RunError::PhiInEntryBlock)));
    let none = "define i32 @main() {\nentry:\n  br label %j\nj:\n  %x = phi i32 [ 1, %other ]\n  ret i32 %x\n}\n";
    assert!(matches!(run(none), Err(RunError::PhiNoIncoming(p)) if p == "entry"));
}

#[test]
fn calls_and_their_errors() {
    let prog = "define i32 @sq(i32 %x) {\nentry:\n  %r = mul i32 %x, %x\n  ret i32 %r\n}\ndefine i32 @main() {\nentry:\n  %v = call i32 @sq(i32 7)\n  ret i32 %v\n}\n";
    assert_eq!(run(prog).unwrap(), 49);
    assert!(matches!(run(&main_of("  %v = call i32 @nope()\n  ret i32 %v")), Err(RunError::UnknownFunction(n)) if n == "nope"));
    let bad_count = "define i32 @sq(i32 %x) {\nentry:\n  ret i32 %x\n}\ndefine i32 @main() {\nentry:\n  %v = call i32 @sq()\n  ret i32 %v\n}\n";
    assert!(matches!(
        run(bad_count),
        Err(RunError::ArgCountMismatch { function, expected: 1, got: 0 }) if function == "sq"
    ));
    let empty = "define i32 @e() {\n}\ndefine i32 @main() {\nentry:\n  %v = call i32 @e()\n  ret i32 %v\n}\n";
    assert!(matches!(run(empty), Err(RunError::EmptyFunction(n)) if n == "e"));
}

#[test]
fn main_errors() {
    assert!(matches!(run("define i32 @other() {\nentry:\n  ret i32 0\n}\n"), Err(RunError::MainNotFound)));
    assert!(matches!(run(&main_of("  ret i1 true")), Err(RunError::MainNotI32)));
    assert!(matches!(run(&main_of("  br label %missing")), Err(RunError::UnknownBlock(b)) if b == "missing"));
    assert!(matches!(run(&main_of("  br i1 1, label %entry, label %entry")), Err(RunError::BranchNotI1)));
    assert!(matches!(run(&main_of("  ret i32 3000000000")), Err(RunError::ConstOutOfRange)));
    assert!(matches!(run(&main_of("  ret i32 %zz")), Err(RunError::UnknownLocal(n)) if n == "zz"));
}

#[test]
fn unset_terminator_branches_to_missing_block() {
    let prog = "define i32 @main() {\nentry:\n  %a = add i32 1, 2\n}\n";
    assert!(matches!(run(prog), Err(RunError::UnknownBlock(b)) if b == "__unset__"));
}

#[test]
fn fuel_bounds_endless_loops() {
    let prog = "define i32 @main() {\nentry:\n  br label %entry\n}\n";
    assert!(matches!(run_fuel(&[prog], 100), Err(RunError::OutOfFuel)));
    let ok = "define i32 @main() {\nentry:\n  ret i32 9\n}\n";
    assert_eq!(run_fuel(&[ok], 1).unwrap(), 9);
    assert!(matches!(run_fuel(&[ok], 0), Err(RunError::OutOfFuel)));
}

#[test]
fn linking_builds_the_table_and_rejects_duplicates() {
    let a = ModuleRef::from_ll_text("define i32 @main() {\nentry:\n  %v = call i32 @two()\n  ret i32 %v\n}\n").unwrap();
    let b = ModuleRef::from_ll_text("define i32 @one() {\nentry:\n  ret i32 1\n}\ndefine i32 @two() {\nentry:\n  ret i32 2\n}\n").unwrap();
    let linked = link_modules(vec![a, b]).unwrap();
    assert_eq!(linked.functions.len(), 3);
    assert_eq!(linked.functions[0].0, "main");
    assert_eq!(linked.functions[0].1, FunctionRef { module_index: 0, function_index: 0 });
    assert_eq!(linked.functions[2].0, "two");
    assert_eq!(linked.functions[2].1, FunctionRef { module_index: 1, function_index: 1 });
    assert_eq!(Interpreter::new(&Vm::new(linked)).run_main().unwrap(), 2);

    let c = ModuleRef::from_ll_text("define i32 @f() {\nentry:\n  ret i32 1\n}\n").unwrap();
    let d = ModuleRef::from_ll_text("define i32 @f() {\nentry:\n  ret i32 2\n}\n").unwrap();
    assert!(matches!(link_modules(vec![c, d]), Err(LinkError::DuplicateFunction(n)) if n == "f"));
}

#[test]
fn memory_reads_back_writes() {
    let mut m = Memory::default();
    assert!(m.get_local("x").is_none());
    m.set_local("x", Value::I32(1));
    m.set_local("x", Value::I32(2));
    assert_eq!(m.get_local("x"), Some(&Value::I32(2)));
    assert!(!m.store_slot("s", Value::I32(3)));
    assert_eq!(m.load_slot("s"), None);
    m.alloc_slot("s");
    assert_eq!(m.load_slot("s"), Some(Value::I32(0)));
    assert!(m.store_slot("s", Value::I1(true)));
    m.alloc_slot("s");
    assert_eq!(m.load_slot("s"), Some(Value::I1(true)));
    assert_eq!(m.get_local("s"), None);
}

#[test]
fn value_accessors() {
    assert_eq!(Value::I32(-4).as_i32(), Some(-4));
    assert_eq!(Value::I1(true).as_i32(), None);
    assert_eq!(Value::I1(false).as_i1(), Some(false));
    assert_eq!(Value::I32(1).as_i1(), None);
    assert_eq!(Value::Ptr("p".to_string()).as_i32(), None);
}

#[test]
fn phis_read_all_incomings_before_writing() {
    // On the second entry to `loop`, %a and %b swap: each phi reads the
    // other's value from before the block was entered.
    let prog = "define i32 @main() {\nentry:\n  br label %loop\nloop:\n  %a = phi i32 [ 1, %entry ], [ %b, %loop ]\n  %b = phi i32 [ 2, %entry ], [ %a, %loop ]\n  %n = phi i32 [ 0, %entry ], [ %m, %loop ]\n  %m = add i32 %n, 1\n  %c = icmp slt i32 %n, 1\n  br i1 %c, label %loop, label %done\ndone:\n  %r = mul i32 %a, 10\n  %s = add i32 %r, %b\n  ret i32 %s\n}\n";
    assert_eq!(run(prog).unwrap(), 21);
}
