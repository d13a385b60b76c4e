//! The program counter of the byte-code machine.
use vstd::prelude::*;

verus! {

/// Where a counter at `start` stands after `k` increments: one byte on each time.
pub open spec fn spec_after_increments(start: int, k: nat) -> int
    decreases k,
{
    if k == 0 {
        start
    } else {
        spec_after_increments(start, (k - 1) as nat) + 1
    }
}

/// `k` increments move the counter `k` bytes on; from a new counter, to `k`.
pub proof fn lemma_after_increments(start: int, k: nat)
    ensures
        spec_after_increments(start, k) == start + k,
    decreases k,
{
    if k > 0 {
        lemma_after_increments(start, (k - 1) as nat);
    }
}

/// The address of the next opcode; opcodes are one byte.
#[derive(Debug, Clone, Copy, PartialEq, Eq)]
pub struct ProgramCounter(pub usize);

impl ProgramCounter {
    /// At address 0.
    pub fn new() -> (r: ProgramCounter)
        ensures
            r.0 == 0,
    {
        ProgramCounter(0)
    }

    /// Move to the next opcode.
    pub fn increment(&mut self)
        requires
            old(self).0 < usize::MAX,
        ensures
            final(self).0 == old(self).0 + 1,
            final(self).0 == spec_after_increments(old(self).0 as int, 1),
    {
        proof {
            reveal_with_fuel(spec_after_increments, 2);
        }
        self.0 = self.0 + 1;
    }

    /// The address.
    pub fn count(&self) -> (r: usize)
        ensures
            r == self.0,
    {
        self.0
    }
}

} // verus!
