//! A toy compiler for a small Rust subset that emits textual LLVM IR, and a
//! virtual machine that loads, links and interprets that IR.
pub mod text;
pub mod compiler;
pub mod vm;
pub mod readback;
