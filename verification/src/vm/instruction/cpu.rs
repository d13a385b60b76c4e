//! A processor on the calling-convention registers.
use vstd::prelude::*;

use crate::vm::instruction::register::{ProgramCounter, Register};

verus! {

/// The values of the 18 registers.
#[derive(Debug, Clone, Copy)]
pub struct Registers(pub [u32; 18]);

impl Registers {
    /// Every register 0.
    pub fn default() -> (r: Registers)
        ensures
            forall|i: int| 0 <= i < 18 ==> r.0@[i] == 0,
    {
        Registers([0; 18])
    }

    /// The value of `register`.
    pub fn get(&self, register: Register) -> (r: u32)
        ensures
            r == self.0@[register.spec_index() as int],
    {
        self.0[register.index() as usize]
    }

    /// Set the value of `register`.
    pub fn set(&mut self, register: Register, value: u32)
        ensures
            final(self).0@ == old(self).0@.update(register.spec_index() as int, value),
    {
        self.0[register.index() as usize] = value;
    }

    /// Every register back to 0.
    pub fn reset(&mut self)
        ensures
            forall|i: int| 0 <= i < 18 ==> final(self).0@[i] == 0,
    {
        self.0 = [0; 18];
    }
}

/// The registers, the program counter and the flags.
#[derive(Debug)]
pub struct CPU {
    pub registers: Registers,
    pub pc: ProgramCounter,
    pub flags: u32,
}

impl CPU {
    /// Registers and flags 0, at address 0.
    pub fn new() -> (r: CPU)
        ensures
            forall|i: int| 0 <= i < 18 ==> r.registers.0@[i] == 0,
            r.pc.0 == 0,
            r.flags == 0,
    {
        CPU { registers: Registers::default(), pc: ProgramCounter::new(), flags: 0 }
    }
}

} // verus!
