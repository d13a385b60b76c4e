//! The register file, the program counter and the processor that holds them.
use vstd::prelude::*;

use crate::isa::Register;

verus! {

/// The values of the thirty-two registers.
#[derive(Debug)]
pub struct Registers([u32; 32]);

impl View for Registers {
    type V = Seq<u32>;

    closed spec fn view(&self) -> Seq<u32> {
        self.0@
    }
}

impl Registers {
    /// Thirty-two registers holding values.
    pub proof fn lemma_len(&self)
        ensures
            self@.len() == 32,
    {
    }

    /// All registers zero.
    pub fn new() -> (r: Registers)
        ensures
            r@ == Seq::new(32, |i: int| 0u32),
    {
        let r = Registers([0; 32]);
        assert(r@ =~= Seq::new(32, |i: int| 0u32));
        r
    }

    /// The value of `register`.
    pub fn get(&self, register: Register) -> (r: u32)
        ensures
            r == self@[register.spec_index() as int],
    {
        self.0[register.index() as usize]
    }

    /// Give `register` the value `value`.
    pub fn set(&mut self, register: Register, value: u32)
        ensures
            final(self)@ == old(self)@.update(register.spec_index() as int, value),
    {
        let i = register.index() as usize;
        self.0[i] = value;
    }

    /// All registers back to zero.
    pub fn reset(&mut self)
        ensures
            final(self)@ == Seq::new(32, |i: int| 0u32),
    {
        self.0 = [0; 32];
        assert(self@ =~= Seq::new(32, |i: int| 0u32));
    }
}

/// Where a program counter at `start` stands after `k` increments: four bytes on each time.
pub open spec fn spec_after_increments(start: int, k: nat) -> int
    decreases k,
{
    if k == 0 {
        start
    } else {
        spec_after_increments(start, (k - 1) as nat) + 4
    }
}

/// `k` increments move a program counter `4 * k` bytes on; from a new counter, to `4 * k`.
pub proof fn lemma_after_increments(start: int, k: nat)
    ensures
        spec_after_increments(start, k) == start + 4 * k,
    decreases k,
{
    if k > 0 {
        lemma_after_increments(start, (k - 1) as nat);
    }
}

/// The address of the next instruction.
#[derive(Debug)]
pub struct ProgramCounter(u32);

impl View for ProgramCounter {
    type V = u32;

    closed spec fn view(&self) -> u32 {
        self.0
    }
}

impl ProgramCounter {
    /// A counter at address 0.
    pub fn new() -> (r: ProgramCounter)
        ensures
            r@ == 0,
    {
        ProgramCounter(0)
    }

    /// Move to the next instruction, four bytes on.
    pub fn increment(&mut self)
        requires
            old(self)@ + 4 <= u32::MAX,
        ensures
            final(self)@ == old(self)@ + 4,
            final(self)@ == spec_after_increments(old(self)@ as int, 1),
    {
        proof {
            reveal_with_fuel(spec_after_increments, 2);
        }
        self.0 += 4
    }

    /// The address held.
    pub fn value(&self) -> (r: u32)
        ensures
            r == self@,
    {
        self.0
    }

    /// Back to address 0.
    pub fn reset(&mut self)
        ensures
            final(self)@ == 0,
    {
        self.0 = 0;
    }
}

/// The processor: registers, program counter and flags.
#[derive(Debug)]
pub struct CPU {
    pub registers: Registers,
    pub pc: ProgramCounter,
    pub flags: u32,
}

impl CPU {
    /// Registers zero, counter at 0, flags 0.
    pub fn new() -> (r: CPU)
        ensures
            r.registers@ == Seq::new(32, |i: int| 0u32),
            r.pc@ == 0,
            r.flags == 0,
    {
        CPU { registers: Registers::new(), pc: ProgramCounter::new(), flags: 0 }
    }
}

} // verus!
