# aicomputer

A small compiler and virtual machine, verified with Verus.

The compiler takes a tiny expression language (`fn`, `let`, `if`, `while`,
`i32` and `bool`) to a textual subset of LLVM IR; the machine reads that
text back, links modules and interprets `main`.

## Layout

- `src/text.rs`: character classes and decimal text shared by both halves.
- `src/compiler/`: `lexer`, `parser`, `sema` (type checking), `ir` (the
  emitted IR and its text), `codegen` (lowering), `cli` (arguments).
  Each stage is an executable function proved equal to a spec function
  over the token, syntax-tree and IR models. `lex_join` and `parse_join`
  prove that lexing and parsing respect concatenation. Lowering gives a
  `let` the slot `%<name>.addr`, and a slot of its own only when it shadows
  a binding in force; it lowers the initializer before the binding takes
  effect and ends a binding with its block. Each phi incoming is labelled
  with the block that is current where its branch ends (`phis` proves that
  this block branches to the phi's block).
- `src/vm/`: `reader` (the IR text reader; it takes `i32`, `i1` and
  `void` as operand types), `loader`, `linker`,
  `memory`, `value`, `interpreter` (a fuel-bounded small-step semantics
  and an interpreter proved to follow it; the phis of a block read all
  their incoming values before any is written, as in LLVM IR), `cli`.
- `src/readback/`: proofs that connect the two halves: the text the
  compiler writes for a module is read back by the machine as the same
  module (`program.rs`, `lowering.rs`), for every program that the lexer
  and parser produce from source text (`source.rs`).
- `tests/`: scenario tests for each stage and for whole programs.
- `app/`: the command-line program (`compile` and `run`), file I/O and
  argument parsing.
