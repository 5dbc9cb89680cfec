//! The compiler: source text to tokens, tokens to a syntax tree, type
//! checking, and lowering to LLVM IR.
pub mod lexer;
pub mod lex_join;
pub mod token_text;
pub mod ast;
pub mod parser;
pub mod parse_join;
pub mod sema;
pub mod ir;
pub mod codegen;
pub mod phis;
pub mod op_meaning;
pub mod cli;
