//! The byte-code machine.
use vstd::prelude::*;

use crate::bytevm::cpu::CPU;
use crate::bytevm::memory::LinearMemory;
use crate::bytevm::register::instruction::{InstructionHandler, Opcode};
use crate::bytevm::register::pc::ProgramCounter;

verus! {

/// A processor and a memory.
pub struct VM {
    pub cpu: CPU,
    pub memory: LinearMemory,
}

impl VM {
    /// A machine with `memory_allocation` zero bytes of memory.
    pub fn new(memory_allocation: usize) -> (r: VM)
        ensures
            r.memory@ == Seq::new(memory_allocation as nat, |i: int| 0u8),
            r.cpu.pc.0 == 0,
    {
        VM { cpu: CPU::new(), memory: LinearMemory::new(memory_allocation) }
    }

    /// Step a counter of its own over every address of the memory, fetching the opcode of the
    /// counter's low byte and carrying it out; every opcode it can fetch (halt and illegal)
    /// succeeds, so the run does, and neither the processor nor the memory changes.
    pub fn run(&mut self) -> (r: Result<(), ()>)
        ensures
            r is Ok,
            final(self).memory@ == old(self).memory@,
            final(self).cpu == old(self).cpu,
    {
        let mut pc = ProgramCounter::new();
        while pc.count() < self.memory.size()
            invariant
                self.memory@ == old(self).memory@,
                self.cpu == old(self).cpu,
            decreases self.memory@.len() - pc.0,
        {
            let opcode = self.fetch(pc.count() as u8);
            pc.increment();
            match self.decode(opcode) {
                Ok(_) => {},
                Err(e) => {
                    return Err(e);
                },
            }
        }
        Ok(())
    }
}

impl InstructionHandler for VM {
    /// Halt and illegal opcodes end nothing: the machine goes on.
    fn decode(&self, opcode: Opcode) -> (r: Result<(), ()>) {
        match opcode {
            Opcode::HLT => Ok(()),
            _ => Ok(()),
        }
    }
}

} // verus!
