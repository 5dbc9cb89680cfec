//! The machine: a linked program and a memory.
use vstd::prelude::*;
use crate::vm::linker::LinkedProgram;
use crate::vm::memory::{Memory, mem_empty};

verus! {

/// A linked program ready to run.
#[derive(Debug)]
pub struct Vm {
    pub program: LinkedProgram,
    pub memory: Memory,
}

impl Vm {
    /// A machine for `program`, with an empty memory.
    pub fn new(program: LinkedProgram) -> (r: Vm)
        ensures
            r.program == program,
            r.memory@ == mem_empty(),
    {
        Vm { program, memory: Memory::default() }
    }
}

} // verus!
