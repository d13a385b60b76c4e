//! The memory of the machine: a byte buffer, and a manager that checks each access against
//! the code, data, heap and stack regions.
use std::ops::Range;

use vstd::prelude::*;

use crate::shared::EnumCount;

verus! {

/// Why a memory access failed.
#[derive(Debug)]
pub enum MemoryError {
    PermissionDenied(Permission, u32),
    UnalignedAccess(u32),
    OutOfBounds(u32),
    OutOfMemory(u32),
    AddressTranslation(u32, Box<MemoryError>),
    NoMap(u32),
    InvalidMap(u32, usize),
    InternalMapperError(u32),
    InternalMapperWithMessage(u32, String),
    ReadOnly,
}

/// The little-endian bytes of a word.
pub open spec fn le_bytes(v: u32) -> Seq<u8> {
    seq![(v & 0xff) as u8, ((v >> 8) & 0xff) as u8, ((v >> 16) & 0xff) as u8, ((v >> 24) & 0xff) as u8]
}

/// The word whose little-endian bytes are `b0, b1, b2, b3`.
pub open spec fn le_word(b0: u8, b1: u8, b2: u8, b3: u8) -> u32 {
    b0 as u32 | (b1 as u32) << 8 | (b2 as u32) << 16 | (b3 as u32) << 24
}

/// The word held by the four bytes of `bytes` at `at`.
pub open spec fn word_at(bytes: Seq<u8>, at: int) -> u32 {
    le_word(bytes[at], bytes[at + 1], bytes[at + 2], bytes[at + 3])
}

/// The half word held by the two bytes of `bytes` at `at`.
pub open spec fn half_at(bytes: Seq<u8>, at: int) -> u16 {
    (bytes[at] as u16 | (bytes[at + 1] as u16) << 8) as u16
}

/// `bytes` with the little-endian bytes of `v` written at `at`; the sequence first grows with
/// zeros when it ends before `at + 4`.
pub open spec fn write_word(bytes: Seq<u8>, at: int, v: u32) -> Seq<u8> {
    let grown = if bytes.len() < at + 4 {
        bytes + Seq::new((at + 4 - bytes.len()) as nat, |i: int| 0u8)
    } else {
        bytes
    };
    grown.update(at, le_bytes(v)[0]).update(at + 1, le_bytes(v)[1]).update(at + 2, le_bytes(v)[2]).update(
        at + 3,
        le_bytes(v)[3],
    )
}

/// Reading back the bytes of a word gives the word.
pub proof fn lemma_le_roundtrip(v: u32)
    ensures
        le_word(le_bytes(v)[0], le_bytes(v)[1], le_bytes(v)[2], le_bytes(v)[3]) == v,
{
    let (b0, b1, b2, b3) = (
        (v & 0xff) as u8,
        ((v >> 8) & 0xff) as u8,
        ((v >> 16) & 0xff) as u8,
        ((v >> 24) & 0xff) as u8,
    );
    assert(b0 as u32 | (b1 as u32) << 8 | (b2 as u32) << 16 | (b3 as u32) << 24 == v) by (bit_vector)
        requires
            b0 == (v & 0xff) as u8,
            b1 == ((v >> 8) & 0xff) as u8,
            b2 == ((v >> 16) & 0xff) as u8,
            b3 == ((v >> 24) & 0xff) as u8,
    ;
}

/// A value of a fixed width that a memory can read and write at byte addresses.
pub trait ReadWrite<T: Copy> {
    /// The access of `address` stays inside what the memory holds.
    spec fn readable(&self, address: usize) -> bool;

    /// The write at `address` stays inside what the memory can hold.
    spec fn writable(&self, address: usize) -> bool;

    /// The value held at `address`.
    spec fn spec_read(&self, address: usize) -> T;

    /// `after` is this memory once `value` is written at `address`.
    spec fn spec_written(&self, address: usize, value: T, after: &Self) -> bool;

    fn read(&self, address: usize) -> (r: Result<T, MemoryError>)
        requires
            self.readable(address),
        ensures
            r matches Ok(v) && v == self.spec_read(address),
    ;

    fn write(&mut self, address: usize, value: T) -> (r: Result<(), MemoryError>)
        requires
            old(self).writable(address),
        ensures
            r is Ok,
            old(self).spec_written(address, value, final(self)),
    ;
}

/// A marker for memories that read and write bytes and words.
pub trait Addressable: ReadWrite<u8> + ReadWrite<u32> {

}

/// A byte buffer that grows as it is written, up to its capacity.
#[derive(Debug)]
pub struct LinearMemory {
    buffer: Vec<u8>,
    capacity: usize,
}

impl Addressable for LinearMemory {

}

impl View for LinearMemory {
    type V = Seq<u8>;

    closed spec fn view(&self) -> Seq<u8> {
        self.buffer@
    }
}

impl LinearMemory {
    /// How many bytes the memory can hold.
    pub closed spec fn spec_capacity(&self) -> nat {
        self.capacity as nat
    }

    /// An empty memory that can hold `size` bytes.
    pub fn new(size: u32) -> (r: LinearMemory)
        ensures
            r@ == Seq::<u8>::empty(),
            r.spec_capacity() == size,
    {
        let buffer = Vec::with_capacity(size as usize);
        LinearMemory { buffer, capacity: size as usize }
    }

    fn zero_all(&mut self)
        ensures
            final(self)@ == Seq::new(old(self)@.len(), |i: int| 0u8),
            final(self).spec_capacity() == old(self).spec_capacity(),
    {
        let n = self.buffer.len();
        let mut i: usize = 0;
        while i < n
            invariant
                n == old(self)@.len(),
                self.buffer@.len() == n,
                self.capacity == old(self).capacity,
                forall|j: int| 0 <= j < i ==> self.buffer@[j] == 0u8,
            decreases n - i,
        {
            self.buffer.set(i, 0);
            i = i + 1;
        }
        assert(self@ =~= Seq::new(old(self)@.len(), |i: int| 0u8));
    }

    /// The number of bytes written so far.
    pub fn size(&self) -> (r: usize)
        ensures
            r == self@.len(),
    {
        self.buffer.len()
    }

    fn grow(&mut self, size: u32) -> (r: Result<(), MemoryError>)
        requires
            old(self)@.len() + size <= usize::MAX,
        ensures
            final(self)@ == old(self)@,
            old(self)@.len() > u32::MAX ==> (r matches Err(MemoryError::OutOfMemory(m)) && m
                == u32::MAX) && final(self).spec_capacity() == old(self).spec_capacity(),
            old(self)@.len() <= u32::MAX ==> r is Ok && final(self).spec_capacity() == (if old(
                self,
            ).spec_capacity() >= old(self)@.len() + size {
                old(self).spec_capacity()
            } else {
                (old(self)@.len() + size) as nat
            }),
    {
        if self.buffer.len() > u32::MAX as usize {
            Err(MemoryError::OutOfMemory(u32::MAX))
        } else {
            let len = self.buffer.len();
            if (self.capacity as u64) < len as u64 + size as u64 {
                self.capacity = len + size as usize;
            }
            Ok(())
        }
    }

    /// The bytes at `range`.
    pub fn index(&self, range: Range<usize>) -> (r: &[u8])
        requires
            range.start <= range.end <= self@.len(),
        ensures
            r@ == self@.subrange(range.start as int, range.end as int),
    {
        slice_range(self.buffer.as_slice(), range.start, range.end)
    }
}

fn slice_range(s: &[u8], start: usize, end: usize) -> (r: &[u8])
    requires
        start <= end <= s@.len(),
    ensures
        r@ == s@.subrange(start as int, end as int),
{
    vstd::slice::slice_subrange(s, start, end)
}

impl ReadWrite<u8> for LinearMemory {
    open spec fn readable(&self, address: usize) -> bool {
        address < self@.len()
    }

    open spec fn writable(&self, address: usize) -> bool {
        address < self@.len()
    }

    open spec fn spec_read(&self, address: usize) -> u8 {
        self@[address as int]
    }

    open spec fn spec_written(&self, address: usize, value: u8, after: &Self) -> bool {
        after@ == self@.update(address as int, value) && after.spec_capacity() == self.spec_capacity()
    }

    fn read(&self, address: usize) -> Result<u8, MemoryError> {
        Ok(self.buffer[address])
    }

    fn write(&mut self, address: usize, value: u8) -> Result<(), MemoryError> {
        self.buffer.set(address, value);
        Ok(())
    }
}

impl ReadWrite<u16> for LinearMemory {
    open spec fn readable(&self, address: usize) -> bool {
        address + 2 <= self@.len()
    }

    open spec fn writable(&self, address: usize) -> bool {
        true
    }

    open spec fn spec_read(&self, address: usize) -> u16 {
        half_at(self@, address as int)
    }

    open spec fn spec_written(&self, address: usize, value: u16, after: &Self) -> bool {
        after@ == self@ && after.spec_capacity() == self.spec_capacity()
    }

    fn read(&self, address: usize) -> Result<u16, MemoryError> {
        let _len = self.buffer.len();
        let b0 = self.buffer[address];
        let b1 = self.buffer[address + 1];
        Ok((b0 as u16 | (b1 as u16) << 8) as u16)
    }

    /// Half words are not written: the memory is left as it was.
    fn write(&mut self, address: usize, value: u16) -> Result<(), MemoryError> {
        Ok(())
    }
}

impl ReadWrite<u32> for LinearMemory {
    open spec fn readable(&self, address: usize) -> bool {
        address + 4 <= self@.len()
    }

    open spec fn writable(&self, address: usize) -> bool {
        address + 4 <= self.spec_capacity()
    }

    open spec fn spec_read(&self, address: usize) -> u32 {
        word_at(self@, address as int)
    }

    open spec fn spec_written(&self, address: usize, value: u32, after: &Self) -> bool {
        after@ == write_word(self@, address as int, value) && after.spec_capacity()
            == self.spec_capacity()
    }

    fn read(&self, address: usize) -> Result<u32, MemoryError> {
        let _len = self.buffer.len();
        let b0 = self.buffer[address];
        let b1 = self.buffer[address + 1];
        let b2 = self.buffer[address + 2];
        let b3 = self.buffer[address + 3];
        Ok(b0 as u32 | (b1 as u32) << 8 | (b2 as u32) << 16 | (b3 as u32) << 24)
    }

    fn write(&mut self, address: usize, value: u32) -> Result<(), MemoryError> {
        let end = address + 4;
        let ghost start_len = self.buffer@.len();
        while self.buffer.len() < end
            invariant
                end == address + 4,
                self.capacity == old(self).capacity,
                start_len == old(self)@.len(),
                start_len <= self.buffer@.len(),
                self.buffer@.len() <= if start_len < end {
                    end as int
                } else {
                    start_len as int
                },
                self.buffer@.subrange(0, start_len as int) == old(self)@,
                forall|j: int| start_len <= j < self.buffer@.len() ==> self.buffer@[j] == 0u8,
            decreases end - self.buffer@.len(),
        {
            self.buffer.push(0);
        }
        let b0 = (value & 0xff) as u8;
        let b1 = ((value >> 8) & 0xff) as u8;
        let b2 = ((value >> 16) & 0xff) as u8;
        let b3 = ((value >> 24) & 0xff) as u8;
        let ghost grown = self.buffer@;
        self.buffer.set(address, b0);
        self.buffer.set(address + 1, b1);
        self.buffer.set(address + 2, b2);
        self.buffer.set(address + 3, b3);
        proof {
            let g2 = if old(self)@.len() < address + 4 {
                old(self)@ + Seq::new((address + 4 - old(self)@.len()) as nat, |i: int| 0u8)
            } else {
                old(self)@
            };
            assert(grown =~= g2);
            assert(self.buffer@ =~= write_word(old(self)@, address as int, value));
        }
        Ok(())
    }
}

/// The kinds of access a region can permit.
#[derive(Debug, Clone, Copy, PartialEq, Eq, Structural)]
pub enum Permission {
    R,
    W,
    X,
}

impl Permission {
    /// Position of the permission in a permission set.
    pub open spec fn spec_index(self) -> int {
        match self {
            Permission::R => 0,
            Permission::W => 1,
            Permission::X => 2,
        }
    }

    fn index(&self) -> (r: usize)
        ensures
            r == self.spec_index(),
    {
        match self {
            Permission::R => 0,
            Permission::W => 1,
            Permission::X => 2,
        }
    }

    /// The name shown for the permission.
    pub fn name(&self) -> (r: &'static str)
        ensures
            r == (match self {
                Permission::R => "Read",
                Permission::W => "Write",
                Permission::X => "Execute",
            }),
    {
        match self {
            Permission::R => "Read",
            Permission::W => "Write",
            Permission::X => "Execute",
        }
    }
}

impl EnumCount for Permission {
    const VARIANT_COUNT: usize = 3;
}

/// Which of read, write and execute a region permits.
#[derive(Debug, Clone, Copy)]
pub struct Permissions([bool; 3]);

impl Permissions {
    /// Whether the set holds `p`.
    pub open spec fn spec_status(self, p: Permission) -> bool {
        self.flags()[p.spec_index()]
    }

    pub closed spec fn flags(self) -> Seq<bool> {
        self.0@
    }

    /// Read only: the set with `R` alone.
    pub fn default() -> (r: Permissions)
        ensures
            r.spec_status(Permission::R),
            !r.spec_status(Permission::W),
            !r.spec_status(Permission::X),
    {
        Permissions([true, false, false])
    }

    /// Read, and every permission of `permissions`.
    pub fn new(permissions: &[Permission]) -> (r: Permissions)
        ensures
            forall|p: Permission| #[trigger]
                r.spec_status(p) == (p == Permission::R || permissions@.contains(p)),
    {
        let mut perm = Self::default();
        let mut i: usize = 0;
        while i < permissions.len()
            invariant
                i <= permissions@.len(),
                forall|p: Permission| #[trigger]
                    perm.spec_status(p) == (p == Permission::R || permissions@.subrange(
                        0,
                        i as int,
                    ).contains(p)),
            decreases permissions@.len() - i,
        {
            let ghost prev = perm;
            perm.enable(permissions[i]);
            proof {
                let s0 = permissions@.subrange(0, i as int);
                let s1 = permissions@.subrange(0, i + 1);
                assert(s1 =~= s0.push(permissions@[i as int]));
                assert forall|p: Permission| #[trigger] s1.contains(p) == (s0.contains(p) || p
                    == permissions@[i as int]) by {
                    if s1.contains(p) {
                        let k = choose|k: int| 0 <= k < s1.len() && s1[k] == p;
                        if k < i {
                            assert(s0[k] == p);
                        }
                    }
                    if s0.contains(p) {
                        let k = choose|k: int| 0 <= k < s0.len() && s0[k] == p;
                        assert(s1[k] == p);
                    }
                    if p == permissions@[i as int] {
                        assert(s1[i as int] == p);
                    }
                }
            }
            i = i + 1;
        }
        assert(permissions@.subrange(0, permissions@.len() as int) =~= permissions@);
        perm
    }

    /// Grant `permission`.
    pub fn enable(&mut self, permission: Permission)
        ensures
            forall|p: Permission| #[trigger]
                final(self).spec_status(p) == (p == permission || old(self).spec_status(p)),
    {
        let i = permission.index();
        self.0[i] = true;
    }

    /// Withdraw `permission`.
    pub fn disable(&mut self, permission: Permission)
        ensures
            forall|p: Permission| #[trigger]
                final(self).spec_status(p) == (p != permission && old(self).spec_status(p)),
    {
        let i = permission.index();
        self.0[i] = false;
    }

    /// Whether `permission` is granted.
    pub fn status(&self, permission: Permission) -> (r: bool)
        ensures
            r == self.spec_status(permission),
    {
        self.0[permission.index()]
    }

    /// The flags for read, write and execute.
    pub fn to_array(self) -> (r: [bool; 3])
        ensures
            r@ == self.flags(),
    {
        self.0
    }
}

/// The bounds `(start, end)` of a region, both inclusive.
#[derive(Debug, Clone, Copy, PartialEq, Eq, Structural)]
pub struct RegionBounds(pub u32, pub u32);

impl RegionBounds {
    pub fn new(start: u32, end: u32) -> (r: RegionBounds)
        ensures
            r == RegionBounds(start, end),
    {
        RegionBounds(start, end)
    }

    pub fn start(&self) -> (r: u32)
        ensures
            r == self.0,
    {
        self.0
    }

    pub fn start_mut(&mut self, value: u32)
        ensures
            *final(self) == RegionBounds(value, old(self).1),
    {
        self.0 = value;
    }

    pub fn end(&self) -> (r: u32)
        ensures
            r == self.1,
    {
        self.1
    }

    pub fn end_mut(&mut self, value: u32)
        ensures
            *final(self) == RegionBounds(old(self).0, value),
    {
        self.1 = value;
    }

    /// The bounds as a range `start..end`.
    pub fn to_range(&self) -> (r: Range<usize>)
        ensures
            r.start == self.0,
            r.end == self.1,
    {
        Range { start: self.0 as usize, end: self.1 as usize }
    }
}

/// The regions, in the order in which they are kept.
#[derive(Debug, Clone, Copy, PartialEq, Eq, Structural)]
pub enum RegionType {
    Code,
    Data,
    Heap,
    Stack,
}

impl RegionType {
    pub open spec fn spec_index(self) -> int {
        match self {
            RegionType::Code => 0,
            RegionType::Data => 1,
            RegionType::Heap => 2,
            RegionType::Stack => 3,
        }
    }

    fn index(&self) -> (r: usize)
        ensures
            r == self.spec_index(),
    {
        match self {
            RegionType::Code => 0,
            RegionType::Data => 1,
            RegionType::Heap => 2,
            RegionType::Stack => 3,
        }
    }
}

impl EnumCount for RegionType {
    const VARIANT_COUNT: usize = 4;
}

/// A region of memory with its permissions and bounds.
#[derive(Debug, Clone, Copy)]
pub struct Region {
    pub permissions: Permissions,
    pub bounds: RegionBounds,
    pub ty: RegionType,
}

impl Region {
    pub fn new(permissions: Permissions, bounds: RegionBounds, ty: RegionType) -> (r: Region)
        ensures
            r.permissions == permissions,
            r.bounds == bounds,
            r.ty == ty,
    {
        Region { permissions, bounds, ty }
    }

    /// Move the end of the region to `offset`.
    pub fn grow(&mut self, offset: u32)
        ensures
            final(self).bounds == RegionBounds(old(self).bounds.0, offset),
            final(self).permissions == old(self).permissions,
            final(self).ty == old(self).ty,
    {
        self.bounds.end_mut(offset);
    }

    /// `start <= address <= end`.
    pub fn is_valid_address(&self, address: u32) -> (r: bool)
        ensures
            r == (self.bounds.0 <= address <= self.bounds.1),
    {
        address >= self.bounds.start() && self.bounds.end() >= address
    }

    pub fn set_bounds(&mut self, start: u32, end: u32)
        ensures
            final(self).bounds == RegionBounds(start, end),
            final(self).permissions == old(self).permissions,
            final(self).ty == old(self).ty,
    {
        self.bounds = RegionBounds::new(start, end);
    }

    /// Bounds back to `(0, 0)`.
    pub fn reset(&mut self)
        ensures
            final(self).bounds == RegionBounds(0, 0),
            final(self).permissions == old(self).permissions,
            final(self).ty == old(self).ty,
    {
        self.bounds.start_mut(0);
        self.bounds.end_mut(0);
    }
}

/// The code, data, heap and stack regions.
#[derive(Debug, Clone, Copy)]
pub struct Regions([Region; 4]);

impl Regions {
    /// The region of type `t`.
    pub open spec fn spec_get(self, t: RegionType) -> Region {
        self.all()[t.spec_index()]
    }

    pub closed spec fn all(self) -> Seq<Region> {
        self.0@
    }

    /// The first region, in order, whose bounds hold `address`.
    pub open spec fn spec_find(self, address: u32) -> Option<int> {
        if self.all()[0].bounds.0 <= address <= self.all()[0].bounds.1 {
            Some(0)
        } else if self.all()[1].bounds.0 <= address <= self.all()[1].bounds.1 {
            Some(1)
        } else if self.all()[2].bounds.0 <= address <= self.all()[2].bounds.1 {
            Some(2)
        } else if self.all()[3].bounds.0 <= address <= self.all()[3].bounds.1 {
            Some(3)
        } else {
            None
        }
    }

    /// The four regions in order.
    pub proof fn lemma_len(self)
        ensures
            self.all().len() == 4,
    {
    }

    /// The first region whose bounds hold `address`.
    pub fn get(&self, address: u32) -> (r: Option<&Region>)
        ensures
            match self.spec_find(address) {
                Some(i) => r matches Some(reg) && *reg == self.all()[i],
                None => r is None,
            },
    {
        let mut i: usize = 0;
        while i < 4
            invariant
                i <= 4,
                self.0@.len() == 4,
                forall|j: int| 0 <= j < i ==> !(#[trigger] self.0@[j].bounds.0 <= address <= self.0@[j].bounds.1),
            decreases 4 - i,
        {
            if self.0[i].is_valid_address(address) {
                return Some(&self.0[i]);
            }
            i = i + 1;
        }
        None
    }

    /// Every region's bounds back to `(0, 0)`.
    pub fn reset(&mut self)
        ensures
            forall|t: RegionType|
                (#[trigger] final(self).spec_get(t)).bounds == RegionBounds(0, 0) && final(self).spec_get(
                    t,
                ).permissions == old(self).spec_get(t).permissions && final(self).spec_get(t).ty
                    == old(self).spec_get(t).ty,
    {
        let mut i: usize = 0;
        while i < 4
            invariant
                i <= 4,
                self.0@.len() == 4,
                forall|j: int|
                    0 <= j < i ==> (#[trigger] self.0@[j]).bounds == RegionBounds(0, 0)
                        && self.0@[j].permissions == old(self).0@[j].permissions && self.0@[j].ty
                        == old(self).0@[j].ty,
                forall|j: int| i <= j < 4 ==> #[trigger] self.0@[j] == old(self).0@[j],
            decreases 4 - i,
        {
            let mut region = self.0[i];
            assert(region == old(self).0@[i as int]);
            region.reset();
            let ghost before = self.0@;
            self.0[i] = region;
            assert(self.0@ == before.update(i as int, region));
            i = i + 1;
        }
    }

    /// The region of type `t`.
    pub fn index(&self, t: RegionType) -> (r: Region)
        ensures
            r == self.spec_get(t),
    {
        self.0[t.index()]
    }

    /// Replace the region of type `t`.
    pub fn set(&mut self, t: RegionType, region: Region)
        ensures
            final(self).spec_get(t) == region,
            forall|u: RegionType| u != t ==> #[trigger] final(self).spec_get(u) == old(self).spec_get(
                u,
            ),
    {
        self.0[t.index()] = region;
    }

    /// Code and data read only with empty bounds; heap and stack readable and writable.
    pub fn default() -> (r: Regions)
        ensures
            r.spec_get(RegionType::Code).bounds == RegionBounds(0, 0),
            r.spec_get(RegionType::Data).bounds == RegionBounds(0, 0),
            r.spec_get(RegionType::Heap).bounds == RegionBounds(0, 0),
            r.spec_get(RegionType::Stack).bounds == RegionBounds(0, 0),
            forall|t: RegionType| #[trigger] r.spec_get(t).ty == t,
            forall|t: RegionType, q: Permission| #[trigger]
                r.spec_get(t).permissions.spec_status(q) == (q == Permission::R || (q
                    == Permission::W && (t == RegionType::Heap || t == RegionType::Stack))),
    {
        let rw = [Permission::R, Permission::W];
        assert(rw@.contains(Permission::W) && rw@[0] == Permission::R);
        assert(!rw@.contains(Permission::X));
        Regions(
            [
                Region::new(Permissions::default(), RegionBounds(0, 0), RegionType::Code),
                Region::new(Permissions::default(), RegionBounds(0, 0), RegionType::Data),
                Region::new(Permissions::new(rw.as_slice()), RegionBounds(0, 0), RegionType::Heap),
                Region::new(Permissions::new(rw.as_slice()), RegionBounds(0, 0), RegionType::Stack),
            ],
        )
    }
}

/// The abstract state of a memory manager.
pub struct MemView {
    pub bytes: Seq<u8>,
    pub capacity: nat,
    pub regions: Regions,
    /// The number of bytes not yet given to a region.
    pub free: u32,
}

/// `after` is `before` with the program `p` loaded at address 0: the bytes of `p` first, the
/// bytes written before kept after them; the code region is `0..len` and not writable, the
/// data and heap regions are empty at the end of the program, the stack and the rest stay.
pub open spec fn spec_loaded(before: MemView, p: Seq<u8>, after: MemView) -> bool {
    let n = p.len();
    let code = before.regions.spec_get(RegionType::Code);
    let data = before.regions.spec_get(RegionType::Data);
    let heap = before.regions.spec_get(RegionType::Heap);
    let code2 = after.regions.spec_get(RegionType::Code);
    &&& after.capacity == before.capacity
    &&& after.free == before.free
    &&& after.bytes == (if before.bytes.len() > n {
        p + before.bytes.subrange(n as int, before.bytes.len() as int)
    } else {
        p
    })
    &&& code2.bounds == RegionBounds(0, n as u32)
    &&& code2.ty == code.ty
    &&& forall|q: Permission| #[trigger]
        code2.permissions.spec_status(q) == (q != Permission::W && code.permissions.spec_status(q))
    &&& after.regions.spec_get(RegionType::Data) == Region {
        bounds: RegionBounds(n as u32, n as u32),
        ..data
    }
    &&& after.regions.spec_get(RegionType::Heap) == Region {
        bounds: RegionBounds(n as u32, n as u32),
        ..heap
    }
    &&& after.regions.spec_get(RegionType::Stack) == before.regions.spec_get(RegionType::Stack)
}

/// The outcome of checking an access of `size` bytes at `vaddr` of kind `ty`.
pub open spec fn spec_validate(m: MemView, vaddr: u32, size: nat, ty: Permission) -> Result<
    usize,
    MemoryError,
> {
    let is_write = ty == Permission::W;
    let code = m.regions.spec_get(RegionType::Code);
    let data = m.regions.spec_get(RegionType::Data);
    let heap = m.regions.spec_get(RegionType::Heap);
    let stack = m.regions.spec_get(RegionType::Stack);
    if (vaddr as int) % (size as int) != 0 {
        Err(MemoryError::UnalignedAccess(vaddr))
    } else if vaddr > m.capacity {
        Err(MemoryError::OutOfBounds(vaddr))
    } else if vaddr >= code.bounds.0 && vaddr + size <= code.bounds.1 {
        if is_write && !code.permissions.spec_status(Permission::W) {
            Err(MemoryError::PermissionDenied(Permission::W, vaddr))
        } else {
            Ok(vaddr as usize)
        }
    } else if vaddr >= data.bounds.0 && vaddr + size <= data.bounds.1 {
        if is_write {
            Err(MemoryError::PermissionDenied(Permission::W, vaddr))
        } else {
            Ok(vaddr as usize)
        }
    } else {
        Ok(vaddr as usize)
    }
}

/// The outcome of reading the word at `address`.
pub open spec fn spec_read_u32(m: MemView, address: u32) -> Result<u32, MemoryError> {
    match spec_validate(m, address, 4, Permission::R) {
        Err(e) => Err(e),
        Ok(a) => if a + 4 <= m.bytes.len() {
            Ok(word_at(m.bytes, a as int))
        } else {
            Err(MemoryError::OutOfBounds(address))
        },
    }
}

/// The memory after writing `value` at `address`, or why it cannot be written.
pub open spec fn spec_write_u32(m: MemView, address: u32, value: u32) -> Result<MemView, MemoryError> {
    match spec_validate(m, address, 4, Permission::W) {
        Err(e) => Err(e),
        Ok(a) => if a + 4 <= m.capacity {
            Ok(MemView { bytes: write_word(m.bytes, a as int, value), ..m })
        } else {
            Err(MemoryError::OutOfBounds(address))
        },
    }
}

/// How much memory a machine gets.
#[derive(Debug, Clone, Copy)]
pub struct MemoryConfiguration {
    pub size: u32,
}

impl MemoryConfiguration {
    pub fn new(size: u32) -> (r: MemoryConfiguration)
        ensures
            r.size == size,
    {
        MemoryConfiguration { size }
    }
}

/// Holds the memory and the regions that accesses are checked against.
pub struct MemoryManager {
    memory: LinearMemory,
    regions: Regions,
    free_memory: u32,
}

impl View for MemoryManager {
    type V = MemView;

    closed spec fn view(&self) -> MemView {
        MemView {
            bytes: self.memory@,
            capacity: self.memory.spec_capacity(),
            regions: self.regions,
            free: self.free_memory,
        }
    }
}

impl MemoryManager {
    pub closed spec fn wf(&self) -> bool {
        &&& self.memory.spec_capacity() <= u32::MAX
        &&& self.memory@.len() <= self.memory.spec_capacity()
    }

    /// What a well-formed manager keeps: its bytes fit into its capacity, which fits into an
    /// address.
    pub proof fn lemma_wf(&self)
        requires
            self.wf(),
        ensures
            self@.bytes.len() <= self@.capacity <= u32::MAX,
    {
    }

    /// The top of the stack: the last byte of memory.
    pub open spec fn spec_stack_start(&self) -> u32 {
        self@.regions.spec_get(RegionType::Stack).bounds.0
    }

    /// A manager for `allocated_memory` bytes, with the stack starting at the last byte.
    pub fn new(allocated_memory: u32) -> (r: MemoryManager)
        requires
            allocated_memory >= 1,
        ensures
            r.wf(),
            r@.bytes == Seq::<u8>::empty(),
            r@.capacity == allocated_memory,
            r@.regions.spec_get(RegionType::Stack).bounds == RegionBounds(
                (allocated_memory - 1) as u32,
                (allocated_memory - 1) as u32,
            ),
            r@.regions.spec_get(RegionType::Code).bounds == RegionBounds(0, 0),
            r@.regions.spec_get(RegionType::Data).bounds == RegionBounds(0, 0),
            r@.regions.spec_get(RegionType::Heap).bounds == RegionBounds(0, 0),
            forall|t: RegionType| #[trigger] r@.regions.spec_get(t).ty == t,
            forall|t: RegionType, q: Permission| #[trigger]
                r@.regions.spec_get(t).permissions.spec_status(q) == (q == Permission::R || (q
                    == Permission::W && (t == RegionType::Heap || t == RegionType::Stack))),
            r@.free == allocated_memory,
    {
        let mut regions = Regions::default();
        let stack_start = allocated_memory - 1;
        let mut stack = regions.index(RegionType::Stack);
        stack.set_bounds(stack_start, stack_start);
        regions.set(RegionType::Stack, stack);
        MemoryManager { memory: LinearMemory::new(allocated_memory), regions, free_memory: allocated_memory }
    }

    /// Where the stack starts.
    pub fn stack_start(&self) -> (r: u32)
        ensures
            r == self.spec_stack_start(),
    {
        self.regions.index(RegionType::Stack).bounds.start()
    }

    /// The number of bytes written so far.
    pub fn size(&self) -> (r: usize)
        ensures
            r == self@.bytes.len(),
    {
        self.memory.size()
    }

    /// `UnalignedAccess` unless `address` is a multiple of `size`.
    pub fn alignment_check(&self, size: usize, address: u32) -> (r: Result<(), MemoryError>)
        requires
            size > 0,
        ensures
            r is Ok <==> (address as int) % (size as int) == 0,
            r matches Err(e) ==> e == MemoryError::UnalignedAccess(address),
    {
        if (address as u64) % (size as u64) != 0 {
            Err(MemoryError::UnalignedAccess(address))
        } else {
            Ok(())
        }
    }

    /// Load `program` at address 0 as the code region, word by word, and place the data and
    /// heap regions right after it.
    pub fn load_program(&mut self, program: &[u8]) -> (r: Result<(), MemoryError>)
        requires
            old(self).wf(),
            program@.len() % 4 == 0,
            program@.len() <= old(self)@.capacity,
            program@.len() + 4 <= u32::MAX,
        ensures
            final(self).wf(),
            r is Ok,
            spec_loaded(old(self)@, program@, final(self)@),
            ({
                let n = program@.len();
                &&& final(self)@.capacity == old(self)@.capacity
                &&& final(self)@.bytes.len() == (if old(self)@.bytes.len() > n {
                    old(self)@.bytes.len() as int
                } else {
                    n as int
                })
                &&& forall|i: int| 0 <= i < n ==> #[trigger] final(self)@.bytes[i] == program@[i]
                &&& forall|i: int|
                    n <= i < final(self)@.bytes.len() ==> #[trigger] final(self)@.bytes[i]
                        == old(self)@.bytes[i]
                &&& final(self)@.regions.spec_get(RegionType::Code).bounds == RegionBounds(0, n as u32)
                &&& !final(self)@.regions.spec_get(RegionType::Code).permissions.spec_status(
                    Permission::W,
                )
                &&& final(self)@.regions.spec_get(RegionType::Data).bounds == RegionBounds(
                    n as u32,
                    n as u32,
                )
                &&& final(self)@.regions.spec_get(RegionType::Heap).bounds == RegionBounds(
                    n as u32,
                    n as u32,
                )
                &&& final(self)@.regions.spec_get(RegionType::Stack) == old(self)@.regions.spec_get(
                    RegionType::Stack,
                )
            }),
    {
        let len = program.len();
        let code_end = len as u32;
        let mut code = self.regions.index(RegionType::Code);
        code.set_bounds(0, code_end);
        code.permissions.enable(Permission::W);
        self.regions.set(RegionType::Code, code);
        let ghost before = self.memory@;
        let mut current_address: u32 = 0;
        let mut i: usize = 0;
        while i < len
            invariant
                len == program@.len(),
                len % 4 == 0,
                i % 4 == 0,
                i <= len,
                current_address == i,
                len <= self.memory.spec_capacity(),
                self.memory@.len() <= self.memory.spec_capacity(),
                self.memory.spec_capacity() == old(self).memory.spec_capacity(),
                self.memory.spec_capacity() <= u32::MAX,
                len + 4 <= u32::MAX,
                code_end == len,
                self.regions.spec_get(RegionType::Code).bounds == RegionBounds(0, code_end),
                self.regions.spec_get(RegionType::Code).ty == old(self).regions.spec_get(
                    RegionType::Code,
                ).ty,
                forall|q: Permission| #[trigger]
                    self.regions.spec_get(RegionType::Code).permissions.spec_status(q) == (q
                        == Permission::W || old(self).regions.spec_get(
                        RegionType::Code,
                    ).permissions.spec_status(q)),
                self.free_memory == old(self).free_memory,
                self.regions.spec_get(RegionType::Stack) == old(self).regions.spec_get(
                    RegionType::Stack,
                ),
                self.regions.spec_get(RegionType::Data) == old(self).regions.spec_get(
                    RegionType::Data,
                ),
                self.regions.spec_get(RegionType::Heap) == old(self).regions.spec_get(
                    RegionType::Heap,
                ),
                self.memory@.len() == (if before.len() > i {
                    before.len() as int
                } else {
                    i as int
                }),
                forall|j: int| 0 <= j < i ==> #[trigger] self.memory@[j] == program@[j],
                forall|j: int| i <= j < self.memory@.len() ==> #[trigger] self.memory@[j] == before[j],
            decreases len - i,
        {
            let word = program[i] as u32 | (program[i + 1] as u32) << 8 | (program[i + 2] as u32)
                << 16 | (program[i + 3] as u32) << 24;
            let ghost old_mem = self.memory@;
            self.memory_write_code_word(current_address, word);
            proof {
                lemma_le_roundtrip_bytes(program[i as int], program[i + 1], program[i + 2], program[i + 3]);
                assert forall|j: int| 0 <= j < i + 4 implies #[trigger] self.memory@[j] == program@[j] by {
                    if j < i {
                        assert(self.memory@[j] == old_mem[j]);
                    }
                }
                assert forall|j: int| i + 4 <= j < self.memory@.len() implies #[trigger] self.memory@[j]
                    == before[j] by {
                    assert(self.memory@[j] == old_mem[j]);
                }
            }
            current_address = current_address + 4;
            i = i + 4;
        }
        let mut code = self.regions.index(RegionType::Code);
        code.permissions.disable(Permission::W);
        self.regions.set(RegionType::Code, code);
        let mut data = self.regions.index(RegionType::Data);
        data.set_bounds(code_end, code_end);
        self.regions.set(RegionType::Data, data);
        let data = self.regions.index(RegionType::Data);
        let mut heap = self.regions.index(RegionType::Heap);
        heap.bounds = RegionBounds::new(data.bounds.start(), data.bounds.end());
        self.regions.set(RegionType::Heap, heap);
        proof {
            let n = program@.len();
            if before.len() > n {
                assert(self@.bytes =~= program@ + before.subrange(n as int, before.len() as int));
            } else {
                assert(self@.bytes =~= program@);
            }
        }
        Ok(())
    }

    /// A word write into the code region while it is writable.
    fn memory_write_code_word(&mut self, address: u32, word: u32)
        requires
            address as int + 4 <= old(self).memory.spec_capacity(),
        ensures
            final(self).memory@ == write_word(old(self).memory@, address as int, word),
            final(self).memory.spec_capacity() == old(self).memory.spec_capacity(),
            final(self).regions == old(self).regions,
            final(self).free_memory == old(self).free_memory,
    {
        let _ = self.memory.write(address as usize, word);
    }

    /// Check an access of `size` bytes (1, 2 or 4) at `vaddr` against alignment, capacity and
    /// the write permission of the code and data regions.
    fn validate(&self, vaddr: u32, size: usize, ty: Permission) -> (r: Result<usize, MemoryError>)
        requires
            size == 1 || size == 2 || size == 4,
        ensures
            r == spec_validate(self@, vaddr, size as nat, ty),
    {
        let size = size as u32;
        if vaddr % size != 0 {
            return Err(MemoryError::UnalignedAccess(vaddr));
        }
        if vaddr as u64 > self.memory.capacity as u64 {
            return Err(MemoryError::OutOfBounds(vaddr));
        }
        let is_write = match ty {
            Permission::W => true,
            _ => false,
        };
        let end = vaddr as u64 + size as u64;
        let r = self.regions.index(RegionType::Code).bounds;
        if vaddr >= r.0 && end <= r.1 as u64 {
            let is_immutable: bool = self.regions.index(RegionType::Code).permissions.status(
                Permission::W,
            );
            if is_write && !is_immutable {
                return Err(MemoryError::PermissionDenied(Permission::W, vaddr));
            }
            return Ok(vaddr as usize);
        }
        let r = self.regions.index(RegionType::Data).bounds;
        if vaddr >= r.0 && end <= r.1 as u64 {
            if is_write {
                return Err(MemoryError::PermissionDenied(Permission::W, vaddr));
            }
            return Ok(vaddr as usize);
        }
        Ok(vaddr as usize)
    }

    /// The word at `address`, or why it cannot be read.
    pub fn read(&self, address: u32) -> (r: Result<u32, MemoryError>)
        requires
            self.wf(),
        ensures
            r == spec_read_u32(self@, address),
    {
        let real_addr = match self.validate(address, 4, Permission::R) {
            Ok(a) => a,
            Err(e) => return Err(e),
        };
        if real_addr as u64 + 4 <= self.memory.buffer.len() as u64 {
            self.memory.read(real_addr)
        } else {
            Err(MemoryError::OutOfBounds(address))
        }
    }

    /// Write `value` at `address`, or say why it cannot be written.
    pub fn write(&mut self, address: u32, value: u32) -> (r: Result<(), MemoryError>)
        requires
            old(self).wf(),
        ensures
            final(self).wf(),
            match spec_write_u32(old(self)@, address, value) {
                Ok(m) => r is Ok && final(self)@ == m,
                Err(e) => r == Err::<(), MemoryError>(e) && final(self)@ == old(self)@,
            },
    {
        let real_addr = match self.validate(address, 4, Permission::W) {
            Ok(a) => a,
            Err(e) => return Err(e),
        };
        if real_addr as u64 + 4 <= self.memory.capacity as u64 {
            self.memory.write(real_addr, value)
        } else {
            Err(MemoryError::OutOfBounds(address))
        }
    }

    /// Zero the written bytes and reset every region's bounds to `(0, 0)`.
    pub fn reset(&mut self)
        requires
            old(self).wf(),
        ensures
            final(self).wf(),
            final(self)@.bytes == Seq::new(old(self)@.bytes.len(), |i: int| 0u8),
            final(self)@.capacity == old(self)@.capacity,
            final(self)@.free == old(self)@.free,
            forall|t: RegionType|
                (#[trigger] final(self)@.regions.spec_get(t)).bounds == RegionBounds(0, 0)
                    && final(self)@.regions.spec_get(t).permissions == old(self)@.regions.spec_get(
                    t,
                ).permissions && final(self)@.regions.spec_get(t).ty == old(self)@.regions.spec_get(
                    t,
                ).ty,
    {
        self.memory.zero_all();
        self.regions.reset();
    }
}

/// The bytes of a word assembled from four bytes are those bytes.
proof fn lemma_le_roundtrip_bytes(b0: u8, b1: u8, b2: u8, b3: u8)
    ensures
        le_bytes(le_word(b0, b1, b2, b3)) == seq![b0, b1, b2, b3],
{
    let w = le_word(b0, b1, b2, b3);
    assert((w & 0xff) as u8 == b0 && ((w >> 8) & 0xff) as u8 == b1 && ((w >> 16) & 0xff) as u8
        == b2 && ((w >> 24) & 0xff) as u8 == b3) by (bit_vector)
        requires
            w == b0 as u32 | (b1 as u32) << 8 | (b2 as u32) << 16 | (b3 as u32) << 24,
    ;
    assert(le_bytes(w) =~= seq![b0, b1, b2, b3]);
}

/// A word written is the word read back.
pub proof fn lemma_read_after_write(m: MemView, address: u32, value: u32)
    requires
        spec_write_u32(m, address, value) is Ok,
    ensures
        spec_read_u32(spec_write_u32(m, address, value)->Ok_0, address) == Ok::<u32, MemoryError>(
            value,
        ),
{
    lemma_le_roundtrip(value);
}


/// The bytes after writing the words `ws`, each an address and a value, one after the other.
pub open spec fn write_words(bytes: Seq<u8>, ws: Seq<(nat, u32)>) -> Seq<u8>
    decreases ws.len(),
{
    if ws.len() == 0 {
        bytes
    } else {
        write_word(write_words(bytes, ws.drop_last()), ws.last().0 as int, ws.last().1)
    }
}

/// The end of the furthest of the words `ws`, or `len` where that is further.
pub open spec fn furthest_end(len: nat, ws: Seq<(nat, u32)>) -> nat
    decreases ws.len(),
{
    if ws.len() == 0 {
        len
    } else {
        let prev = furthest_end(len, ws.drop_last());
        if prev >= ws.last().0 + 4 {
            prev
        } else {
            ws.last().0 + 4
        }
    }
}

/// After a sequence of word writes the memory is as long as the furthest end of a word written,
/// or as it was where that is longer; a new memory is empty, so its size is then the furthest
/// end.
pub proof fn lemma_size_after_writes(bytes: Seq<u8>, ws: Seq<(nat, u32)>)
    ensures
        write_words(bytes, ws).len() == furthest_end(bytes.len(), ws),
    decreases ws.len(),
{
    if ws.len() > 0 {
        lemma_size_after_writes(bytes, ws.drop_last());
    }
}

/// The memory after the writes `ws`, one after the other, or the error of the first that
/// fails.
pub open spec fn spec_write_all(m: MemView, ws: Seq<(u32, u32)>) -> Result<MemView, MemoryError>
    decreases ws.len(),
{
    if ws.len() == 0 {
        Ok(m)
    } else {
        match spec_write_all(m, ws.drop_last()) {
            Err(e) => Err(e),
            Ok(m1) => spec_write_u32(m1, ws.last().0, ws.last().1),
        }
    }
}

/// The words at `a` and at `b` share no byte.
pub open spec fn words_apart(a: u32, b: u32) -> bool {
    a + 4 <= b || b + 4 <= a
}

/// A write keeps what can be read of every word it does not touch.
pub proof fn lemma_read_after_other_write(m: MemView, address: u32, value: u32, a: u32)
    requires
        spec_write_u32(m, address, value) is Ok,
        spec_read_u32(m, a) is Ok,
        words_apart(a, address),
    ensures
        spec_read_u32(spec_write_u32(m, address, value)->Ok_0, a) == spec_read_u32(m, a),
{
    let m2 = spec_write_u32(m, address, value)->Ok_0;
    assert(m2.regions == m.regions && m2.capacity == m.capacity);
    assert(spec_validate(m2, a, 4, Permission::R) == spec_validate(m, a, 4, Permission::R));
    assert(m2.bytes.len() >= m.bytes.len());
    assert(m2.bytes[a as int] == m.bytes[a as int]);
    assert(m2.bytes[a + 1] == m.bytes[a + 1]);
    assert(m2.bytes[a + 2] == m.bytes[a + 2]);
    assert(m2.bytes[a + 3] == m.bytes[a + 3]);
}

/// A read gives back the word written at `address`, whatever writes of other words came in
/// between.
pub proof fn lemma_read_after_write_then_others(
    m: MemView,
    address: u32,
    value: u32,
    ws: Seq<(u32, u32)>,
)
    requires
        spec_write_u32(m, address, value) is Ok,
        spec_write_all(spec_write_u32(m, address, value)->Ok_0, ws) is Ok,
        forall|i: int| 0 <= i < ws.len() ==> words_apart(address, #[trigger] ws[i].0),
    ensures
        spec_read_u32(
            spec_write_all(spec_write_u32(m, address, value)->Ok_0, ws)->Ok_0,
            address,
        ) == Ok::<u32, MemoryError>(value),
    decreases ws.len(),
{
    let m1 = spec_write_u32(m, address, value)->Ok_0;
    if ws.len() == 0 {
        lemma_read_after_write(m, address, value);
    } else {
        let init = ws.drop_last();
        assert forall|i: int| 0 <= i < init.len() implies words_apart(address, #[trigger] init[i].0) by {
            assert(init[i] == ws[i]);
        }
        lemma_read_after_write_then_others(m, address, value, init);
        let m2 = spec_write_all(m1, init)->Ok_0;
        assert(words_apart(address, ws[ws.len() - 1].0));
        lemma_read_after_other_write(m2, ws.last().0, ws.last().1, address);
    }
}


/// A word inside the code region cannot be written while the code region lacks the write
/// permission: the write is refused with `PermissionDenied(W, address)`, and a refused write
/// leaves the memory as it was. Reads there are allowed.
pub proof fn lemma_code_region_read_only(m: MemView, address: u32, value: u32)
    requires
        address % 4 == 0,
        address <= m.capacity,
        m.regions.spec_get(RegionType::Code).bounds.0 <= address,
        address + 4 <= m.regions.spec_get(RegionType::Code).bounds.1,
        !m.regions.spec_get(RegionType::Code).permissions.spec_status(Permission::W),
    ensures
        spec_write_u32(m, address, value) == Err::<MemView, MemoryError>(
            MemoryError::PermissionDenied(Permission::W, address),
        ),
        spec_validate(m, address, 4, Permission::R) == Ok::<usize, MemoryError>(address as usize),
{
}

/// After a program is loaded, every word of it is protected: writing any aligned word of the
/// program is refused with `PermissionDenied(W, address)`.
pub proof fn lemma_loaded_program_read_only(
    before: MemView,
    p: Seq<u8>,
    after: MemView,
    address: u32,
    value: u32,
)
    requires
        spec_loaded(before, p, after),
        p.len() <= before.capacity,
        p.len() <= u32::MAX,
        address % 4 == 0,
        address + 4 <= p.len(),
    ensures
        spec_write_u32(after, address, value) == Err::<MemView, MemoryError>(
            MemoryError::PermissionDenied(Permission::W, address),
        ),
{
    lemma_code_region_read_only(after, address, value);
}


/// A word inside the data region cannot be written either; outside the code and data regions
/// every aligned word that fits into the memory can be written, and is then read back.
pub proof fn lemma_region_writes(m: MemView, address: u32, value: u32)
    requires
        address % 4 == 0,
        address + 4 <= m.capacity,
    ensures
        ({
            let code = m.regions.spec_get(RegionType::Code);
            let data = m.regions.spec_get(RegionType::Data);
            let in_code = code.bounds.0 <= address && address + 4 <= code.bounds.1;
            let in_data = data.bounds.0 <= address && address + 4 <= data.bounds.1;
            &&& !in_code && in_data ==> spec_write_u32(m, address, value) == Err::<
                MemView,
                MemoryError,
            >(MemoryError::PermissionDenied(Permission::W, address))
            &&& !in_code && !in_data ==> spec_write_u32(m, address, value) is Ok
                && spec_read_u32(spec_write_u32(m, address, value)->Ok_0, address) == Ok::<
                u32,
                MemoryError,
            >(value)
        }),
{
    let code = m.regions.spec_get(RegionType::Code);
    let data = m.regions.spec_get(RegionType::Data);
    if !(code.bounds.0 <= address && address + 4 <= code.bounds.1) && !(data.bounds.0 <= address
        && address + 4 <= data.bounds.1) {
        lemma_read_after_write(m, address, value);
    }
}

} // verus!
