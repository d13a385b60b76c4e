//! The machine: fetch, decode and execute until a system call halts it.
use vstd::prelude::*;

use crate::isa::instruction::{spec_decode, spec_encode, Instruction};
use crate::isa::Register;
use crate::shared::DecodeError;
use crate::vm::cpu::{Registers, CPU};
use crate::vm::memory::{
    lemma_read_after_write, le_bytes, spec_loaded, spec_read_u32, spec_write_u32, MemView, MemoryConfiguration,
    MemoryError, MemoryManager, Permission, RegionBounds, RegionType,
};

verus! {

/// The little-endian bytes of the encodings of `p`, one word after the other.
pub open spec fn encode_program(p: Seq<Instruction>) -> Seq<u8>
    decreases p.len(),
{
    if p.len() == 0 {
        Seq::empty()
    } else {
        encode_program(p.drop_last()) + le_bytes(spec_encode(p.last()))
    }
}

/// Why the machine stopped with an error.
#[derive(Debug)]
pub enum VmError {
    Memory(MemoryError),
    Decode(DecodeError),
}

/// The abstract state of the machine.
pub struct VmState {
    pub regs: Seq<u32>,
    pub pc: u32,
    pub halt: bool,
    pub flags: u32,
    pub mem: MemView,
}

/// The value of register `r` in `s`.
pub open spec fn reg(s: VmState, r: Register) -> u32 {
    s.regs[r.spec_index() as int]
}

/// `s` with register `r` set to `v`.
pub open spec fn with_reg(s: VmState, r: Register, v: u32) -> VmState {
    VmState { regs: s.regs.update(r.spec_index() as int, v), ..s }
}

/// `x` reduced modulo 2^32.
pub open spec fn wrap(x: int) -> u32 {
    (x % 0x1_0000_0000) as u32
}

/// The state after executing `i` in `s` (the counter already moved past `i`), and whether it
/// failed. A failed load or store leaves the state as it was.
pub open spec fn spec_execute(s: VmState, i: Instruction) -> (VmState, Result<(), VmError>) {
    match i {
        Instruction::Add { dest, src1, src2 } => (
            with_reg(s, dest, wrap(reg(s, src1) + reg(s, src2))),
            Ok(()),
        ),
        Instruction::Sub { dest, src1, src2 } => (
            with_reg(s, dest, wrap(reg(s, src1) - reg(s, src2))),
            Ok(()),
        ),
        Instruction::Mul { dest, src1, src2 } => (
            with_reg(s, dest, wrap(reg(s, src1) * reg(s, src2))),
            Ok(()),
        ),
        Instruction::And { dest, src1, src2 } => (
            with_reg(s, dest, reg(s, src1) & reg(s, src2)),
            Ok(()),
        ),
        Instruction::Or { dest, src1, src2 } => (
            with_reg(s, dest, reg(s, src1) | reg(s, src2)),
            Ok(()),
        ),
        Instruction::Xor { dest, src1, src2 } => (
            with_reg(s, dest, reg(s, src1) ^ reg(s, src2)),
            Ok(()),
        ),
        Instruction::Shl { dest, src, shift } => (
            with_reg(s, dest, reg(s, src) << shift.spec_index()),
            Ok(()),
        ),
        Instruction::Shr { dest, src, shift } => (
            with_reg(s, dest, reg(s, src) >> shift.spec_index()),
            Ok(()),
        ),
        Instruction::ShrA { dest, src, shift } => (
            with_reg(s, dest, ((reg(s, src) as i32) >> (shift.spec_index() as i32)) as u32),
            Ok(()),
        ),
        Instruction::AddI { dest, src, value } => (
            with_reg(s, dest, wrap(reg(s, src) + (value@ as u32))),
            Ok(()),
        ),
        Instruction::Lui { dest, value } => (with_reg(s, dest, value@ as u32), Ok(())),
        Instruction::Lw { dest, src, offset } => {
            let addr = wrap((offset@ as u32) + reg(s, src));
            if addr % 4 != 0 {
                (s, Err(VmError::Memory(MemoryError::UnalignedAccess(addr))))
            } else {
                match spec_read_u32(s.mem, addr) {
                    Ok(v) => (with_reg(s, dest, v), Ok(())),
                    Err(e) => (s, Err(VmError::Memory(e))),
                }
            }
        },
        Instruction::Sw { src, dest, offset } => {
            let addr = wrap((offset@ as u32) + reg(s, dest));
            if addr % 4 != 0 {
                (s, Err(VmError::Memory(MemoryError::UnalignedAccess(addr))))
            } else {
                match spec_write_u32(s.mem, addr, reg(s, src)) {
                    Ok(m) => (VmState { mem: m, ..s }, Ok(())),
                    Err(e) => (s, Err(VmError::Memory(e))),
                }
            }
        },
        Instruction::Syscall { .. } => (VmState { halt: true, ..s }, Ok(())),
    }
}

/// One step from `s`: fetch the word at the counter, decode it, move the counter on and
/// execute.
pub open spec fn spec_step(s: VmState) -> (VmState, Result<(), VmError>) {
    match spec_read_u32(s.mem, s.pc) {
        Err(e) => (s, Err(VmError::Memory(e))),
        Ok(w) => match spec_decode(w) {
            Err(d) => (s, Err(VmError::Decode(d))),
            Ok(i) => spec_execute(VmState { pc: (s.pc + 4) as u32, ..s }, i),
        },
    }
}

/// At most `n` steps from `s`, stopping early once halted or on the first error.
pub open spec fn spec_run(s: VmState, n: nat) -> (VmState, Result<(), VmError>)
    decreases n,
{
    if n == 0 || s.halt {
        (s, Ok(()))
    } else {
        let (s1, r1) = spec_step(s);
        if r1 is Err {
            (s1, r1)
        } else {
            spec_run(s1, (n - 1) as nat)
        }
    }
}

/// Running `n` steps that end in a running state and then one more step is running `n + 1`
/// steps.
pub proof fn lemma_run_extend(s: VmState, n: nat, t: VmState)
    requires
        spec_run(s, n) == (t, Ok::<(), VmError>(())),
        !t.halt,
    ensures
        spec_run(s, n + 1) == (if spec_step(t).1 is Err {
            spec_step(t)
        } else {
            spec_run(spec_step(t).0, 0)
        }),
    decreases n,
{
    if n == 0 {
    } else {
        if s.halt {
        } else {
            let (s1, r1) = spec_step(s);
            if r1 is Err {
            } else {
                lemma_run_extend(s1, (n - 1) as nat, t);
            }
        }
    }
}

/// The register an instruction of `execute_register_op` writes, and the value it writes.
pub open spec fn spec_register_result(s: VmState, i: Instruction) -> (Register, u32) {
    match i {
        Instruction::Add { dest, src1, src2 } => (dest, wrap(reg(s, src1) + reg(s, src2))),
        Instruction::Sub { dest, src1, src2 } => (dest, wrap(reg(s, src1) - reg(s, src2))),
        Instruction::Mul { dest, src1, src2 } => (dest, wrap(reg(s, src1) * reg(s, src2))),
        Instruction::And { dest, src1, src2 } => (dest, reg(s, src1) & reg(s, src2)),
        Instruction::Or { dest, src1, src2 } => (dest, reg(s, src1) | reg(s, src2)),
        Instruction::Xor { dest, src1, src2 } => (dest, reg(s, src1) ^ reg(s, src2)),
        Instruction::Shl { dest, src, shift } => (dest, reg(s, src) << shift.spec_index()),
        Instruction::Shr { dest, src, shift } => (dest, reg(s, src) >> shift.spec_index()),
        Instruction::ShrA { dest, src, shift } => (
            dest,
            ((reg(s, src) as i32) >> (shift.spec_index() as i32)) as u32,
        ),
        Instruction::AddI { dest, src, value } => (dest, wrap(reg(s, src) + (value@ as u32))),
        Instruction::Lui { dest, value } => (dest, value@ as u32),
        _ => (Register::X0, 0),
    }
}

/// Executing an instruction that only changes a register writes its result register.
proof fn lemma_register_op(s: VmState, i: Instruction)
    requires
        !(i is Lw || i is Sw || i is Syscall),
    ensures
        spec_execute(s, i).0 == with_reg(s, spec_register_result(s, i).0, spec_register_result(s, i).1),
        spec_execute(s, i).1 is Ok,
{
}

/// What executing an instruction that computes into a register does, by the values of its
/// source registers before the step: `add`, `sub`, `mul` and `addi` work modulo 2^32 (a
/// difference added back to the subtrahend gives the minuend), the bit operations bit by bit,
/// the shifts by the index of the shift register, and `lui` loads its immediate. Only the
/// destination register changes; the counter, the memory and the halt flag stay, and the step
/// succeeds.
#[verifier::rlimit(40)]
pub proof fn lemma_register_instruction_results(s: VmState, i: Instruction)
    requires
        !(i is Lw || i is Sw || i is Syscall),
        s.regs.len() == 32,
    ensures
        ({
            let (t, r) = spec_execute(s, i);
            &&& r is Ok
            &&& t.pc == s.pc && t.halt == s.halt && t.flags == s.flags && t.mem == s.mem
            &&& t.regs.len() == 32
            &&& match i {
                Instruction::Add { dest, src1, src2 } => reg(t, dest) as int == (reg(s, src1) as int
                    + reg(s, src2) as int) % 0x1_0000_0000,
                Instruction::Sub { dest, src1, src2 } => {
                    &&& (reg(t, dest) as int + reg(s, src2) as int) % 0x1_0000_0000 == reg(s, src1)
                    &&& reg(t, dest) as int == (reg(s, src1) as int - reg(s, src2) as int
                        + 0x1_0000_0000) % 0x1_0000_0000
                },
                Instruction::Mul { dest, src1, src2 } => reg(t, dest) as int == (reg(s, src1) as int
                    * reg(s, src2) as int) % 0x1_0000_0000,
                Instruction::And { dest, src1, src2 } => reg(t, dest) == reg(s, src1) & reg(s, src2),
                Instruction::Or { dest, src1, src2 } => reg(t, dest) == reg(s, src1) | reg(s, src2),
                Instruction::Xor { dest, src1, src2 } => reg(t, dest) == reg(s, src1) ^ reg(s, src2),
                Instruction::Shl { dest, src, shift } => reg(t, dest) == reg(s, src) << shift.spec_index(),
                Instruction::Shr { dest, src, shift } => reg(t, dest) == reg(s, src) >> shift.spec_index(),
                Instruction::ShrA { dest, src, shift } => reg(t, dest) == ((reg(s, src) as i32) >> (
                shift.spec_index() as i32)) as u32,
                Instruction::AddI { dest, src, value } => reg(t, dest) as int == (reg(s, src) as int
                    + (value@ as u32) as int) % 0x1_0000_0000,
                Instruction::Lui { dest, value } => reg(t, dest) == value@ as u32,
                _ => true,
            }
            &&& forall|k: int|
                0 <= k < 32 && k != spec_register_dest(i).spec_index() ==> #[trigger] t.regs[k]
                    == s.regs[k]
        }),
{
    lemma_register_op(s, i);
    let (d, v) = spec_register_result(s, i);
    assert(d == spec_register_dest(i));
    lemma_with_reg(s, d, v);
    if let Instruction::Sub { dest, src1, src2 } = i {
        let a = reg(s, src1) as int;
        let b = reg(s, src2) as int;
        assert((a - b + 0x1_0000_0000) % 0x1_0000_0000 == (a - b) % 0x1_0000_0000);
        assert(((a - b) % 0x1_0000_0000 + b) % 0x1_0000_0000 == a);
    }
}

/// Setting a register changes that register alone.
proof fn lemma_with_reg(s: VmState, r: Register, v: u32)
    requires
        s.regs.len() == 32,
    ensures
        ({
            let t = with_reg(s, r, v);
            &&& t.regs.len() == 32
            &&& reg(t, r) == v
            &&& t.pc == s.pc && t.halt == s.halt && t.flags == s.flags && t.mem == s.mem
            &&& forall|k: int| 0 <= k < 32 && k != r.spec_index() ==> #[trigger] t.regs[k] == s.regs[k]
        }),
{
    assert(r.spec_index() < 32);
}

/// A word stored to `offset + base` and loaded back from `offset + base` is the value stored:
/// `sw` then `lw` through the same base register and offset copies a register, and `sw`
/// changes no register.
pub proof fn lemma_store_then_load(
    s: VmState,
    a: Register,
    base: Register,
    d: Register,
    offset: crate::isa::operand::Immediate14,
)
    requires
        s.regs.len() == 32,
        spec_execute(s, Instruction::Sw { src: a, dest: base, offset }).1 is Ok,
    ensures
        ({
            let s1 = spec_execute(s, Instruction::Sw { src: a, dest: base, offset }).0;
            &&& s1.regs == s.regs
            &&& s1.pc == s.pc
            &&& spec_execute(s1, Instruction::Lw { dest: d, src: base, offset }) == (
                with_reg(s1, d, reg(s, a)),
                Ok::<(), VmError>(()),
            )
        }),
{
    let addr = wrap((offset@ as u32) + reg(s, base));
    lemma_read_after_write(s.mem, addr, reg(s, a));
}

/// A system call halts the machine and changes nothing else; a halted machine runs no further.
pub proof fn lemma_syscall_halts(s: VmState, i: Instruction, n: nat)
    requires
        i is Syscall,
    ensures
        spec_execute(s, i) == (VmState { halt: true, ..s }, Ok::<(), VmError>(())),
        spec_run(VmState { halt: true, ..s }, n) == (VmState { halt: true, ..s }, Ok::<
            (),
            VmError,
        >(())),
{
}

/// The register that an instruction computing into a register writes.
pub open spec fn spec_register_dest(i: Instruction) -> Register {
    match i {
        Instruction::Add { dest, .. } => dest,
        Instruction::Sub { dest, .. } => dest,
        Instruction::Mul { dest, .. } => dest,
        Instruction::And { dest, .. } => dest,
        Instruction::Or { dest, .. } => dest,
        Instruction::Xor { dest, .. } => dest,
        Instruction::Shl { dest, .. } => dest,
        Instruction::Shr { dest, .. } => dest,
        Instruction::ShrA { dest, .. } => dest,
        Instruction::AddI { dest, .. } => dest,
        Instruction::Lui { dest, .. } => dest,
        _ => Register::X0,
    }
}

fn wrapping_add(a: u32, b: u32) -> (r: u32)
    ensures
        r == wrap(a + b),
{
    a.wrapping_add(b)
}

fn wrapping_sub(a: u32, b: u32) -> (r: u32)
    ensures
        r == wrap(a - b),
{
    a.wrapping_sub(b)
}

fn wrapping_mul(a: u32, b: u32) -> (r: u32)
    ensures
        r == wrap(a * b),
{
    a.wrapping_mul(b)
}

fn register_result(regs: &Registers, i: Instruction) -> (r: (Register, u32))
    requires
        regs@.len() == 32,
    ensures
        forall|s: VmState| s.regs == regs@ ==> r == spec_register_result(s, i),
{
    match i {
        Instruction::Add { dest, src1, src2 } => (dest, wrapping_add(regs.get(src1), regs.get(src2))),
        Instruction::Sub { dest, src1, src2 } => (dest, wrapping_sub(regs.get(src1), regs.get(src2))),
        Instruction::Mul { dest, src1, src2 } => (dest, wrapping_mul(regs.get(src1), regs.get(src2))),
        Instruction::And { dest, src1, src2 } => (dest, regs.get(src1) & regs.get(src2)),
        Instruction::Or { dest, src1, src2 } => (dest, regs.get(src1) | regs.get(src2)),
        Instruction::Xor { dest, src1, src2 } => (dest, regs.get(src1) ^ regs.get(src2)),
        Instruction::AddI { dest, src, value } => (dest, wrapping_add(regs.get(src), value.to_u32())),
        Instruction::Lui { dest, value } => (dest, value.to_u32()),
        Instruction::Shl { dest, src, shift } => (dest, regs.get(src) << shift.index()),
        Instruction::Shr { dest, src, shift } => (dest, regs.get(src) >> shift.index()),
        Instruction::ShrA { dest, src, shift } => {
            let base = regs.get(src) as i32;
            (dest, (base >> (shift.index() as i32)) as u32)
        },
        _ => (Register::X0, 0),
    }
}

/// The machine.
pub struct VM {
    pub cpu: CPU,
    memory: MemoryManager,
    halt: bool,
}

impl View for VM {
    type V = VmState;

    closed spec fn view(&self) -> VmState {
        VmState {
            regs: self.cpu.registers@,
            pc: self.cpu.pc@,
            halt: self.halt,
            flags: self.cpu.flags,
            mem: self.memory@,
        }
    }
}

impl VM {
    pub closed spec fn wf(&self) -> bool {
        self.memory.wf()
    }

    /// A machine with `configuration.size` bytes of memory, registers zero, counter at 0.
    pub fn new(configuration: MemoryConfiguration) -> (r: VM)
        requires
            configuration.size >= 1,
        ensures
            r.wf(),
            r@.regs == Seq::new(32, |i: int| 0u32),
            r@.pc == 0,
            !r@.halt,
            r@.flags == 0,
            r@.mem.bytes == Seq::<u8>::empty(),
            r@.mem.capacity == configuration.size,
            r@.mem.free == configuration.size,
            r@.mem.regions.spec_get(RegionType::Stack).bounds == RegionBounds(
                (configuration.size - 1) as u32,
                (configuration.size - 1) as u32,
            ),
            r@.mem.regions.spec_get(RegionType::Code).bounds == RegionBounds(0, 0),
            r@.mem.regions.spec_get(RegionType::Data).bounds == RegionBounds(0, 0),
            r@.mem.regions.spec_get(RegionType::Heap).bounds == RegionBounds(0, 0),
            forall|t: RegionType| #[trigger] r@.mem.regions.spec_get(t).ty == t,
            forall|t: RegionType, q: Permission| #[trigger]
                r@.mem.regions.spec_get(t).permissions.spec_status(q) == (q == Permission::R || (q
                    == Permission::W && (t == RegionType::Heap || t == RegionType::Stack))),
    {
        VM { cpu: CPU::new(), memory: MemoryManager::new(configuration.size), halt: false }
    }

    /// Registers zero, counter at 0, not halted, memory zeroed and regions emptied.
    pub fn reset(&mut self)
        requires
            old(self).wf(),
        ensures
            final(self).wf(),
            final(self)@.regs == Seq::new(32, |i: int| 0u32),
            final(self)@.pc == 0,
            !final(self)@.halt,
            final(self)@.flags == old(self)@.flags,
            final(self)@.mem.bytes == Seq::new(old(self)@.mem.bytes.len(), |i: int| 0u8),
            final(self)@.mem.capacity == old(self)@.mem.capacity,
            final(self)@.mem.free == old(self)@.mem.free,
            forall|t: RegionType|
                (#[trigger] final(self)@.mem.regions.spec_get(t)).bounds == RegionBounds(0, 0)
                    && final(self)@.mem.regions.spec_get(t).permissions == old(
                    self,
                )@.mem.regions.spec_get(t).permissions && final(self)@.mem.regions.spec_get(t).ty
                    == old(self)@.mem.regions.spec_get(t).ty,
    {
        self.cpu.registers.reset();
        self.halt = false;
        self.cpu.pc.reset();
        self.memory.reset();
    }

    /// Step until halted; stops at the first error.
    pub fn run(&mut self) -> (r: Result<(), VmError>)
        requires
            old(self).wf(),
        ensures
            final(self).wf(),
            r is Ok ==> final(self)@.halt,
            exists|n: nat| spec_run(old(self)@, n) == (final(self)@, r),
    {
        let ghost mut n: nat = 0;
        while !self.halt
            invariant
                self.wf(),
                spec_run(old(self)@, n) == (self@, Ok::<(), VmError>(())),
            decreases u32::MAX - self.cpu.pc@,
        {
            let ghost before = self@;
            let ghost pc_before = self.cpu.pc@;
            let r = self.step();
            proof {
                lemma_run_extend(old(self)@, n, before);
                n = n + 1;
            }
            match r {
                Ok(()) => {},
                Err(e) => {
                    return Err(e);
                },
            }
        }
        Ok(())
    }

    /// Fetch the instruction at the counter, move the counter on and execute the instruction.
    pub fn step(&mut self) -> (r: Result<(), VmError>)
        requires
            old(self).wf(),
        ensures
            final(self).wf(),
            (final(self)@, r) == spec_step(old(self)@),
            r is Ok ==> final(self)@.pc == old(self)@.pc + 4,
    {
        let instruction = match self.fetch() {
            Ok(i) => i,
            Err(e) => return Err(e),
        };
        proof {
            self.memory.lemma_wf();
        }
        self.cpu.pc.increment();
        self.decode_execute(instruction)
    }

    /// The registers, to read or change.
    pub fn registers(&mut self) -> (r: &mut Registers)
        ensures
            r@ == old(self)@.regs,
            final(self)@ == (VmState { regs: final(r)@, ..old(self)@ }),
            final(self).wf() == old(self).wf(),
    {
        &mut self.cpu.registers
    }

    /// Encode `program`, load it at address 0, point the stack pointer at the top of the
    /// stack and run: the outcome is a run from the state in which the memory is as loading
    /// the encoded program leaves it (`spec_loaded`), the stack pointer holds the top of the
    /// stack, and the rest is as before.
    pub fn test_run(&mut self, program: &[Instruction]) -> (r: Result<(), VmError>)
        requires
            old(self).wf(),
            program@.len() * 4 <= old(self)@.mem.capacity,
            program@.len() * 4 + 4 <= u32::MAX,
        ensures
            final(self).wf(),
            r is Ok ==> final(self)@.halt,
            exists|mid: VmState, n: nat|
                {
                    &&& mid.regs == old(self)@.regs.update(
                        Register::SP.spec_index() as int,
                        old(self)@.mem.regions.spec_get(RegionType::Stack).bounds.0,
                    )
                    &&& mid.pc == old(self)@.pc
                    &&& mid.halt == old(self)@.halt
                    &&& mid.flags == old(self)@.flags
                    &&& spec_loaded(old(self)@.mem, encode_program(program@), mid.mem)
                    &&& spec_run(mid, n) == (final(self)@, r)
                },
    {
        let mut bytes: Vec<u8> = Vec::new();
        let mut i: usize = 0;
        while i < program.len()
            invariant
                i <= program@.len(),
                bytes@ == encode_program(program@.subrange(0, i as int)),
                bytes@.len() == 4 * i,
            decreases program@.len() - i,
        {
            let w = program[i].encode();
            let ghost before = bytes@;
            bytes.push((w & 0xff) as u8);
            bytes.push(((w >> 8) & 0xff) as u8);
            bytes.push(((w >> 16) & 0xff) as u8);
            bytes.push(((w >> 24) & 0xff) as u8);
            proof {
                let p = program@.subrange(0, i + 1);
                assert(p.drop_last() =~= program@.subrange(0, i as int));
                assert(bytes@ =~= before + le_bytes(w));
            }
            i = i + 1;
        }
        assert(program@.subrange(0, program@.len() as int) =~= program@);
        match self.memory.load_program(bytes.as_slice()) {
            Ok(()) => {},
            Err(e) => return Err(VmError::Memory(e)),
        }
        let sp = self.memory.stack_start();
        self.cpu.registers.set(Register::SP, sp);
        let ghost mid = self@;
        let r = self.run();
        assert(mid.regs == old(self)@.regs.update(Register::SP.spec_index() as int, sp));
        r
    }
}

impl VM {
    fn fetch(&self) -> (r: Result<Instruction, VmError>)
        requires
            self.wf(),
        ensures
            match spec_read_u32(self@.mem, self@.pc) {
                Err(e) => r == Err::<Instruction, VmError>(VmError::Memory(e)),
                Ok(w) => match spec_decode(w) {
                    Err(d) => r == Err::<Instruction, VmError>(VmError::Decode(d)),
                    Ok(i) => r == Ok::<Instruction, VmError>(i) && self@.pc + 4 <= self@.mem.bytes.len(),
                },
            },
    {
        let memory = match self.memory.read(self.cpu.pc.value()) {
            Ok(w) => w,
            Err(e) => return Err(VmError::Memory(e)),
        };
        match Instruction::try_from(memory) {
            Ok(i) => Ok(i),
            Err(d) => Err(VmError::Decode(d)),
        }
    }

    fn decode_execute(&mut self, instruction: Instruction) -> (r: Result<(), VmError>)
        requires
            old(self).wf(),
        ensures
            final(self).wf(),
            (final(self)@, r) == spec_execute(old(self)@, instruction),
    {
        match instruction {
            Instruction::Lw { dest, src, offset } => self.execute_load(dest, src, offset),
            Instruction::Sw { src, dest, offset } => self.execute_store(src, dest, offset),
            Instruction::Syscall { .. } => {
                self.halt = true;
                Ok(())
            },
            _ => {
                self.execute_register_op(instruction);
                Ok(())
            },
        }
    }

    /// The instructions that only change a register.
    fn execute_register_op(&mut self, instruction: Instruction)
        requires
            old(self).wf(),
            !(instruction is Lw || instruction is Sw || instruction is Syscall),
        ensures
            final(self).wf(),
            final(self)@ == spec_execute(old(self)@, instruction).0,
    {
        proof {
            self.cpu.registers.lemma_len();
        }
        let (dest, value) = register_result(&self.cpu.registers, instruction);
        proof {
            lemma_register_op(old(self)@, instruction);
            assert((dest, value) == spec_register_result(old(self)@, instruction));
        }
        self.registers().set(dest, value);
    }

    /// `Lw`: the word at `offset + src`, into `dest`.
    #[verifier::rlimit(40)]
    fn execute_load(&mut self, dest: Register, src: Register, offset: crate::isa::operand::Immediate14) -> (r: Result<(), VmError>)
        requires
            old(self).wf(),
        ensures
            final(self).wf(),
            (final(self)@, r) == spec_execute(old(self)@, Instruction::Lw { dest, src, offset }),
    {
        let addr = offset.to_u32().wrapping_add(self.cpu.registers.get(src));
        match self.memory.alignment_check(4, addr) {
            Ok(()) => {},
            Err(e) => return Err(VmError::Memory(e)),
        }
        match self.memory.read(addr) {
            Ok(v) => {
                self.cpu.registers.set(dest, v);
                Ok(())
            },
            Err(e) => Err(VmError::Memory(e)),
        }
    }

    /// `Sw`: the value of `src`, to the word at `offset + dest`.
    fn execute_store(&mut self, src: Register, dest: Register, offset: crate::isa::operand::Immediate14) -> (r: Result<(), VmError>)
        requires
            old(self).wf(),
        ensures
            final(self).wf(),
            (final(self)@, r) == spec_execute(old(self)@, Instruction::Sw { src, dest, offset }),
    {
        let base = self.cpu.registers.get(dest);
        let address = offset.to_u32().wrapping_add(base);
        match self.memory.alignment_check(4, address) {
            Ok(()) => {},
            Err(e) => return Err(VmError::Memory(e)),
        }
        let value = self.cpu.registers.get(src);
        match self.memory.write(address, value) {
            Ok(()) => Ok(()),
            Err(e) => Err(VmError::Memory(e)),
        }
    }
}

} // verus!
