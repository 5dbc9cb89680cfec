use aicomputer::compiler::ast::{BinOp, Expr, Stmt, Type, UnaryOp};
use aicomputer::compiler::cli::Args;
use aicomputer::compiler::codegen::{lower_to_ir, CodegenError};
use aicomputer::compiler::lexer::{lex, LexError, Token};
use aicomputer::compiler::parser::{parse, ParseError};
use aicomputer::compiler::sema::{analyze, SemaError};

fn front(src: &str) -> Result<aicomputer::compiler::ast::Program, ParseError> {
    parse(&lex(src).expect("lex"))
}

fn checked(src: &str) -> Result<aicomputer::compiler::ast::Program, SemaError> {
    analyze(front(src).expect("parse"))
}

#[test]
fn lex_function_header() {
    let toks = lex("fn main() -> i32 { 42 }").unwrap();
    assert_eq!(
        toks,
        vec![
            Token::Fn,
            Token::Ident("main".to_string()),
            Token::LParen,
            Token::RParen,
            Token::Arrow,
            Token::I32,
            Token::LBrace,
            Token::Int(42),
            Token::RBrace,
        ]
    );
}

#[test]
fn lex_operators_and_keywords() {
    let toks = lex("let x: bool = !a && b || c == d != e <= f >= g < h > i; while if else true false").unwrap();
    assert_eq!(
        toks,
        vec![
            Token::Let,
            Token::Ident("x".to_string()),
            Token::Colon,
            Token::Bool,
            Token::Eq,
            Token::Bang,
            Token::Ident("a".to_string()),
            Token::AndAnd,
            Token::Ident("b".to_string()),
            Token::OrOr,
            Token::Ident("c".to_string()),
            Token::EqEq,
            Token::Ident("d".to_string()),
            Token::NotEq,
            Token::Ident("e".to_string()),
            Token::Le,
            Token::Ident("f".to_string()),
            Token::Ge,
            Token::Ident("g".to_string()),
            Token::Lt,
            Token::Ident("h".to_string()),
            Token::Gt,
            Token::Ident("i".to_string()),
            Token::Semicolon,
            Token::While,
            Token::If,
            Token::Else,
            Token::True,
            Token::False,
        ]
    );
}

#[test]
fn lex_arithmetic_symbols() {
    let toks = lex("a + b - c * d / e % f, g").unwrap();
    assert_eq!(
        toks,
        vec![
            Token::Ident("a".to_string()),
            Token::Plus,
            Token::Ident("b".to_string()),
            Token::Minus,
            Token::Ident("c".to_string()),
            Token::Star,
            Token::Ident("d".to_string()),
            Token::Slash,
            Token::Ident("e".to_string()),
            Token::Percent,
            Token::Ident("f".to_string()),
            Token::Comma,
            Token::Ident("g".to_string()),
        ]
    );
}

#[test]
fn lex_skips_line_comments() {
    assert_eq!(lex("// a comment\n7 // another").unwrap(), vec![Token::Int(7)]);
}

#[test]
fn lex_int_limits() {
    assert_eq!(lex("2147483647").unwrap(), vec![Token::Int(2147483647)]);
    assert_eq!(lex("2147483648"), Err(LexError::BadInt));
}

#[test]
fn lex_rejects_single_amp_pipe_and_strange_chars() {
    assert_eq!(lex("a & b"), Err(LexError::UnexpectedAmp));
    assert_eq!(lex("a | b"), Err(LexError::UnexpectedPipe));
    assert_eq!(lex("a $ b"), Err(LexError::UnexpectedChar('$')));
}

#[test]
fn parse_precedence() {
    let p = front("fn main() -> i32 { 1 + 2 * 3 }").unwrap();
    assert_eq!(p.functions.len(), 1);
    let f = &p.functions[0];
    assert_eq!(f.name, "main");
    assert_eq!(f.return_type, Type::I32);
    assert_eq!(
        f.body,
        Expr::Block {
            stmts: vec![],
            expr: Box::new(Expr::Binary {
                op: BinOp::Add,
                lhs: Box::new(Expr::Int(1)),
                rhs: Box::new(Expr::Binary {
                    op: BinOp::Mul,
                    lhs: Box::new(Expr::Int(2)),
                    rhs: Box::new(Expr::Int(3)),
                }),
            }),
        }
    );
}

#[test]
fn parse_let_unary_and_params() {
    let p = front("fn f(a: i32, b: bool) -> bool { let c: i32 = -a; !b }").unwrap();
    let f = &p.functions[0];
    assert_eq!(f.params.len(), 2);
    assert_eq!(f.params[0].name, "a");
    assert_eq!(f.params[1].ty, Type::Bool);
    assert_eq!(
        f.body,
        Expr::Block {
            stmts: vec![Stmt::Let {
                name: "c".to_string(),
                ty: Type::I32,
                value: Expr::Unary { op: UnaryOp::Neg, expr: Box::new(Expr::Ident("a".to_string())) },
            }],
            expr: Box::new(Expr::Unary { op: UnaryOp::Not, expr: Box::new(Expr::Ident("b".to_string())) }),
        }
    );
}

#[test]
fn parse_errors() {
    assert!(matches!(front("fn"), Err(ParseError::ExpectedFunctionName(None))));
    assert!(matches!(
        front("main"),
        Err(ParseError::Expected { expected: Token::Fn, got: Token::Ident(_) })
    ));
    assert!(matches!(front("fn f("), Err(ParseError::ExpectedParamName(None))));
    assert!(matches!(front("fn f() -> u8 { 1 }"), Err(ParseError::ExpectedType(Some(Token::Ident(_))))));
    assert!(matches!(front("fn f() -> i32 { }"), Err(ParseError::UnexpectedToken(Some(Token::RBrace)))));
    assert!(matches!(front("fn f() -> i32 { 1"), Err(ParseError::UnexpectedEof)));
    assert!(matches!(front("fn f() -> i32 { let 1"), Err(ParseError::ExpectedLetName(Some(Token::Int(1))))));
}

#[test]
fn parse_empty_program() {
    assert_eq!(front("").unwrap().functions.len(), 0);
}

#[test]
fn sema_accepts_and_returns_program_unchanged() {
    let src = "fn main() -> i32 { let x: i32 = 1; if x < 2 { x } else { 0 } }";
    let before = front(src).unwrap();
    let after = analyze(front(src).unwrap()).unwrap();
    assert_eq!(before, after);
}

#[test]
fn sema_errors() {
    assert!(matches!(checked("fn main() -> i32 { y }"), Err(SemaError::UnknownIdentifier(n)) if n == "y"));
    assert!(matches!(checked("fn main() -> i32 { -true }"), Err(SemaError::NegExpectsI32)));
    assert!(matches!(checked("fn main() -> bool { !1 }"), Err(SemaError::NotExpectsBool)));
    assert!(matches!(checked("fn main() -> i32 { 1 + true }"), Err(SemaError::ArithmeticExpectsI32)));
    assert!(matches!(checked("fn main() -> bool { true < 1 }"), Err(SemaError::ComparisonExpectsI32)));
    assert!(matches!(checked("fn main() -> bool { true == 1 }"), Err(SemaError::EqualityExpectsSameTypes)));
    assert!(matches!(checked("fn main() -> bool { 1 && true }"), Err(SemaError::LogicalExpectsBool)));
    assert!(matches!(checked("fn main() -> i32 { if 1 { 1 } else { 2 } }"), Err(SemaError::IfConditionNotBool)));
    assert!(matches!(checked("fn main() -> i32 { if true { 1 } else { false } }"), Err(SemaError::IfBranchesDiffer)));
    assert!(matches!(checked("fn main() -> i32 { while 1 { 0 }; 1 }"), Err(SemaError::WhileConditionNotBool)));
    assert!(matches!(checked("fn main() -> i32 { g() }"), Err(SemaError::UnknownFunction(n)) if n == "g"));
    assert!(matches!(
        checked("fn g(a: i32) -> i32 { a } fn main() -> i32 { g() }"),
        Err(SemaError::ArgCountMismatch(n)) if n == "g"
    ));
    assert!(matches!(
        checked("fn g(a: i32) -> i32 { a } fn main() -> i32 { g(true) }"),
        Err(SemaError::ArgTypeMismatch(n)) if n == "g"
    ));
    assert!(matches!(
        checked("fn main() -> i32 { let a: i32 = 1; let a: i32 = 2; a }"),
        Err(SemaError::DuplicateLet(n)) if n == "a"
    ));
    assert!(matches!(
        checked("fn main() -> i32 { let a: i32 = true; a }"),
        Err(SemaError::LetTypeMismatch(n)) if n == "a"
    ));
    assert!(matches!(
        checked("fn main() -> i32 { true }"),
        Err(SemaError::ReturnTypeMismatch { expected: Type::I32, found: Type::Bool, .. })
    ));
}

#[test]
fn codegen_constant_main() {
    let ir = lower_to_ir(checked("fn main() -> i32 { 42 }").unwrap()).unwrap();
    assert_eq!(ir.to_string(), "define i32 @main() {\nentry:\n  ret i32 42\n\n}\n\n");
}

#[test]
fn codegen_parameters_and_add() {
    let ir = lower_to_ir(checked("fn add(x: i32, y: i32) -> i32 { x + y }").unwrap()).unwrap();
    assert_eq!(
        ir.to_string(),
        "define i32 @add(i32 %x, i32 %y) {\nentry:\n  %t1 = add i32 %x, %y\n  ret i32 %t1\n\n}\n\n"
    );
}

#[test]
fn codegen_without_sema() {
    // A call of an unknown function is emitted with `i32` types.
    let ir = lower_to_ir(front("fn main() -> i32 { h(1) }").unwrap()).unwrap();
    assert_eq!(ir.to_string(), "define i32 @main() {\nentry:\n  %t1 = call i32 @h(i32 1)\n  ret i32 %t1\n\n}\n\n");
    // The type of a `let` value must be known.
    let ast = front("fn main() -> i32 { let x: i32 = h(1); x }").unwrap();
    assert!(matches!(lower_to_ir(ast), Err(CodegenError::UnknownFunction(n)) if n == "h"));
    let ast = front("fn main() -> i32 { let x: i32 = y; x }").unwrap();
    assert!(matches!(lower_to_ir(ast), Err(CodegenError::UnknownIdentifier(n)) if n == "y"));
}

#[test]
fn codegen_let_uses_a_stack_slot() {
    let ir = lower_to_ir(checked("fn main() -> i32 { let x: i32 = 5; x }").unwrap()).unwrap();
    assert_eq!(
        ir.to_string(),
        "define i32 @main() {\nentry:\n  %x.addr = alloca i32\n  store i32 5, i32* %x.addr\n  %t1 = load i32, i32* %x.addr\n  ret i32 %t1\n\n}\n\n"
    );
}

#[test]
fn compiler_args_default_output() {
    let a = Args::new("prog.rs".to_string(), None);
    assert_eq!(a.input, "prog.rs");
    assert_eq!(a.output, "out.ll");
    let b = Args::new("prog.rs".to_string(), Some("x.ll".to_string()));
    assert_eq!(b.output, "x.ll");
}

#[test]
fn lexing_texts_joined_by_a_space_concatenates_tokens() {
    let pairs = [("fn f(x: i32) -> i32 // note\n", "{ x - 1 }"), ("a -", "> b"), ("x =", "= 1"), ("12", "34")];
    for (s, t) in pairs.iter() {
        let mut both = lex(s).unwrap();
        both.extend(lex(t).unwrap());
        assert_eq!(lex(&format!("{} {}", s, t)).unwrap(), both);
    }
    assert!(lex("a &").is_err());
    assert!(lex("a & b").is_err());
}

#[test]
fn parsing_joined_tokens_joins_functions() {
    let a = lex("fn f(x: i32) -> i32 { x + 1 }").unwrap();
    let b = lex("fn g() -> bool { f(1) == 2 } fn main() -> i32 { 0 }").unwrap();
    let mut ab = a.clone();
    ab.extend(b.clone());
    let pa = parse(&a).unwrap();
    let pb = parse(&b).unwrap();
    let pab = parse(&ab).unwrap();
    assert_eq!(pab.functions.len(), pa.functions.len() + pb.functions.len());
    assert_eq!(pab.functions[0], pa.functions[0]);
    assert_eq!(pab.functions[1], pb.functions[0]);
    assert_eq!(pab.functions[2], pb.functions[1]);
    assert_eq!(parse(&[]).unwrap().functions.len(), 0);
}
