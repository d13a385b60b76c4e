//! The processor of the byte-code machine.
use vstd::prelude::*;

use crate::bytevm::register::pc::ProgramCounter;
use crate::bytevm::register::Register;

verus! {

/// The values of the ten registers.
#[derive(Debug, Clone, Copy)]
pub struct Registers(pub [u32; 10]);

impl Registers {
    /// Every register 0.
    pub fn default() -> (r: Registers)
        ensures
            forall|i: int| 0 <= i < 10 ==> r.0@[i] == 0,
    {
        Registers([0; 10])
    }

    /// The value of `register`.
    pub fn get(&self, register: Register) -> (r: u32)
        ensures
            r == self.0@[register.spec_index() as int],
    {
        self.0[register.index()]
    }

    /// Set the value of `register`.
    pub fn set(&mut self, register: Register, value: u32) -> (r: Result<(), ()>)
        ensures
            r is Ok,
            final(self).0@ == old(self).0@.update(register.spec_index() as int, value),
    {
        self.0[register.index()] = value;
        Ok(())
    }
}

/// A program counter.
pub trait PC {

}

/// The registers, the program counter and the flags.
#[derive(Debug)]
pub struct CPU {
    pub registers: Registers,
    pub pc: ProgramCounter,
    pub flags: u32,
}

impl CPU {
    /// Registers and flags 0, at address 0.
    pub fn new() -> (r: CPU)
        ensures
            forall|i: int| 0 <= i < 10 ==> r.registers.0@[i] == 0,
            r.pc.0 == 0,
            r.flags == 0,
    {
        CPU { registers: Registers::default(), pc: ProgramCounter::new(), flags: 0 }
    }
}

} // verus!
