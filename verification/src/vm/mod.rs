//! The virtual machine: loads LLVM IR text, links modules, and interprets
//! the program from its `main` function.
pub mod value;
pub mod memory;
pub mod ir;
pub mod linker;
pub mod vm;
pub mod interpreter;
pub mod compare_meaning;
pub mod arith_meaning;
pub mod control_meaning;
pub mod chars;
pub mod reader;
pub mod loader;
pub mod cli;
