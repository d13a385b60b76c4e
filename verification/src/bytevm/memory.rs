//! The memory of the byte-code machine: a byte buffer of fixed size, read and written in
//! little-endian order.
use vstd::prelude::*;

use crate::vm::memory::le_word;

verus! {

/// Why a memory access failed.
#[derive(Debug)]
pub enum MemoryError {
    OutOfBounds(u32),
    AddressTranslation(u32, Box<MemoryError>),
    NoMap(u32),
    InvalidMap(u32, usize),
    InternalMapperError(u32),
    InternalMapperWithMessage(u32, String),
}

/// Reading and writing values of type `T`.
pub trait Mem<T> {
    /// The access of a `T` at `address` stays inside the memory.
    spec fn readable(&self, address: usize) -> bool;

    /// The `T` held at `address`.
    spec fn spec_read(&self, address: usize) -> T;

    /// `after` is this memory once `value` is written at `address`.
    spec fn spec_written(&self, address: usize, value: T, after: &Self) -> bool;

    fn read(&self, address: usize) -> (r: Result<T, MemoryError>)
        requires
            self.readable(address),
        ensures
            r matches Ok(v) && v == self.spec_read(address),
    ;

    fn write(&mut self, address: usize, value: T) -> (r: Result<(), MemoryError>)
        requires
            old(self).readable(address),
        ensures
            r is Ok,
            old(self).spec_written(address, value, final(self)),
    ;
}

/// A byte buffer.
pub struct LinearMemory(Vec<u8>);

impl View for LinearMemory {
    type V = Seq<u8>;

    closed spec fn view(&self) -> Seq<u8> {
        self.0@
    }
}

impl LinearMemory {
    /// `size` zero bytes.
    pub fn new(size: usize) -> (r: LinearMemory)
        ensures
            r@ == Seq::new(size as nat, |i: int| 0u8),
    {
        let mut v: Vec<u8> = Vec::new();
        let mut i: usize = 0;
        while i < size
            invariant
                i <= size,
                v@ == Seq::new(i as nat, |k: int| 0u8),
            decreases size - i,
        {
            v.push(0);
            i = i + 1;
            assert(v@ =~= Seq::new(i as nat, |k: int| 0u8));
        }
        LinearMemory(v)
    }

    /// Number of bytes.
    pub fn size(&self) -> (r: usize)
        ensures
            r == self@.len(),
    {
        self.0.len()
    }
}

impl Mem<u8> for LinearMemory {
    open spec fn readable(&self, address: usize) -> bool {
        address < self@.len()
    }

    open spec fn spec_read(&self, address: usize) -> u8 {
        self@[address as int]
    }

    open spec fn spec_written(&self, address: usize, value: u8, after: &Self) -> bool {
        after@ == self@.update(address as int, value)
    }

    fn read(&self, address: usize) -> (r: Result<u8, MemoryError>) {
        Ok(self.0[address])
    }

    fn write(&mut self, address: usize, value: u8) -> (r: Result<(), MemoryError>) {
        self.0.set(address, value);
        Ok(())
    }
}

/// The little-endian `u16` of two bytes.
pub open spec fn le_half(b0: u8, b1: u8) -> u16 {
    (b0 as u16 | (b1 as u16) << 8) as u16
}

impl Mem<u16> for LinearMemory {
    open spec fn readable(&self, address: usize) -> bool {
        address + 2 <= self@.len()
    }

    open spec fn spec_read(&self, address: usize) -> u16 {
        le_half(self@[address as int], self@[address + 1])
    }

    open spec fn spec_written(&self, address: usize, value: u16, after: &Self) -> bool {
        after@ == self@.update(address as int, #[verifier::truncate] ((value & 0xff) as u8)).update(
            address + 1,
            #[verifier::truncate] ((value >> 8) as u8),
        )
    }

    fn read(&self, address: usize) -> (r: Result<u16, MemoryError>) {
        let _len = self.0.len();
        let b0 = self.0[address];
        let b1 = self.0[address + 1];
        Ok((b0 as u16 | (b1 as u16) << 8) as u16)
    }

    fn write(&mut self, address: usize, value: u16) -> (r: Result<(), MemoryError>) {
        let _len = self.0.len();
        self.0.set(address, #[verifier::truncate] ((value & 0xff) as u8));
        self.0.set(address + 1, #[verifier::truncate] ((value >> 8) as u8));
        Ok(())
    }
}

impl Mem<u32> for LinearMemory {
    open spec fn readable(&self, address: usize) -> bool {
        address + 4 <= self@.len()
    }

    open spec fn spec_read(&self, address: usize) -> u32 {
        le_word(self@[address as int], self@[address + 1], self@[address + 2], self@[address + 3])
    }

    open spec fn spec_written(&self, address: usize, value: u32, after: &Self) -> bool {
        after@ == self@.update(address as int, #[verifier::truncate] ((value & 0xff) as u8)).update(
            address + 1,
            ((value >> 8) & 0xff) as u8,
        ).update(address + 2, ((value >> 16) & 0xff) as u8).update(
            address + 3,
            ((value >> 24) & 0xff) as u8,
        )
    }

    fn read(&self, address: usize) -> (r: Result<u32, MemoryError>) {
        let _len = self.0.len();
        let b0 = self.0[address];
        let b1 = self.0[address + 1];
        let b2 = self.0[address + 2];
        let b3 = self.0[address + 3];
        Ok(b0 as u32 | (b1 as u32) << 8 | (b2 as u32) << 16 | (b3 as u32) << 24)
    }

    fn write(&mut self, address: usize, value: u32) -> (r: Result<(), MemoryError>) {
        let _len = self.0.len();
        self.0.set(address, #[verifier::truncate] ((value & 0xff) as u8));
        self.0.set(address + 1, ((value >> 8) & 0xff) as u8);
        self.0.set(address + 2, ((value >> 16) & 0xff) as u8);
        self.0.set(address + 3, ((value >> 24) & 0xff) as u8);
        Ok(())
    }
}

} // verus!
