//! Items shared by the instruction set, the virtual machine and the assembler.
use std::ops::Range;

use vstd::prelude::*;

verus! {

/// The error returned when a machine word does not decode into an instruction.
#[derive(Debug, Clone, Copy, PartialEq, Eq, Structural)]
pub enum DecodeError {
    /// The low byte of the word is not the opcode of any instruction.
    UnknownOpcode(u8),
}

/// An instruction that knows its own opcode.
pub trait VMInstruction {
    fn opcode(&self) -> u8;
}

/// An enum that knows how many variants it has.
pub trait EnumCount {
    const VARIANT_COUNT: usize;
}

/// An enum that can list the lower-case names of its variants, in declaration order.
pub trait EnumVariants<const N: usize> {
    fn variants() -> [&'static str; N];
}

/// The largest value that fits into `bit_count` bits: unsigned when `SIGNED` is false,
/// two's complement when it is true.
pub open spec fn spec_max_value_for_bit_length(signed: bool, bit_count: nat) -> int {
    if !signed {
        vstd::arithmetic::power2::pow2(bit_count) - 1
    } else {
        vstd::arithmetic::power2::pow2((bit_count - 1) as nat) - 1
    }
}

/// Largest value representable in `bit_count` bits (see `spec_max_value_for_bit_length`).
pub fn max_value_for_bit_length<const SIGNED: bool>(bit_count: u32) -> (r: u32)
    requires
        !SIGNED ==> bit_count < 32,
        SIGNED ==> 1 <= bit_count <= 32,
    ensures
        r as int == spec_max_value_for_bit_length(SIGNED, bit_count as nat),
{
    if !SIGNED {
        proof {
            vstd::bits::lemma_u32_pow2_no_overflow(bit_count as nat);
            vstd::bits::lemma_u32_shl_is_mul(1, bit_count);
        }
        (1u32 << bit_count) - 1
    } else {
        let b: u32 = bit_count - 1;
        proof {
            vstd::bits::lemma_u32_pow2_no_overflow(b as nat);
            vstd::bits::lemma_u32_shl_is_mul(1, b);
        }
        (1u32 << b) - 1
    }
}

/// Non-overlapping chunks of a range of indices, each `size` long but the last.
pub struct Chunks {
    range: Range<usize>,
    size: usize,
    current: usize,
}

impl Chunks {
    pub closed spec fn spec_range_start(&self) -> usize {
        self.range.start
    }

    pub closed spec fn spec_range_end(&self) -> usize {
        self.range.end
    }

    pub closed spec fn spec_size(&self) -> usize {
        self.size
    }

    /// Where the next chunk starts.
    pub closed spec fn spec_current(&self) -> usize {
        self.current
    }

    fn new(range: Range<usize>, size: usize) -> (r: Chunks)
        ensures
            r.spec_range_start() == range.start,
            r.spec_range_end() == range.end,
            r.spec_size() == size,
            r.spec_current() == range.start,
    {
        let current = range.start;
        Chunks { current, range, size }
    }

    /// The next chunk `start..min(start + size, end)`, or `None` once `end` is reached.
    pub fn next(&mut self) -> (r: Option<Range<usize>>)
        requires
            old(self).spec_current() + old(self).spec_size() <= usize::MAX,
        ensures
            final(self).spec_range_start() == old(self).spec_range_start(),
            final(self).spec_range_end() == old(self).spec_range_end(),
            final(self).spec_size() == old(self).spec_size(),
            old(self).spec_current() >= old(self).spec_range_end() ==> r is None
                && final(self).spec_current() == old(self).spec_current(),
            old(self).spec_current() < old(self).spec_range_end() ==> ({
                let start = old(self).spec_current();
                let end = spec_chunk_end(
                    start as int,
                    old(self).spec_range_end() as int,
                    old(self).spec_size() as int,
                );
                &&& r matches Some(c)
                &&& c.start == start
                &&& c.end == end
                &&& final(self).spec_current() == end
            }),
    {
        if self.current >= self.range.end {
            return None;
        }
        let start = self.current;
        let candidate = start + self.size;
        let end = if candidate < self.range.end {
            candidate
        } else {
            self.range.end
        };
        self.current = end;
        Some(start..end)
    }
}

/// Split a range into chunks.
pub trait RangeChunks {
    fn chunks(self, size: usize) -> Chunks;
}

impl RangeChunks for Range<usize> {
    fn chunks(self, size: usize) -> (r: Chunks)
        ensures
            r.spec_range_start() == self.start,
            r.spec_range_end() == self.end,
            r.spec_size() == size,
            r.spec_current() == self.start,
    {
        Chunks::new(self, size)
    }
}


/// Where the chunk starting at `cur` ends: `size` on, or at `end` where that comes first.
pub open spec fn spec_chunk_end(cur: int, end: int, size: int) -> int {
    if cur + size < end {
        cur + size
    } else {
        end
    }
}

/// The chunks that `next` hands out one after the other from the position `cur`, until `end`.
pub open spec fn spec_chunks(cur: int, end: int, size: int) -> Seq<(int, int)>
    decreases end - cur,
{
    if cur >= end || size <= 0 {
        Seq::empty()
    } else {
        seq![(cur, spec_chunk_end(cur, end, size))] + spec_chunks(
            spec_chunk_end(cur, end, size),
            end,
            size,
        )
    }
}

/// `x` lies in one of the chunks `c`.
pub open spec fn in_some_chunk(c: Seq<(int, int)>, x: int) -> bool {
    exists|i: int| 0 <= i < c.len() && c[i].0 <= x && x < #[trigger] c[i].1
}

/// The chunks of `start..end` cover it exactly: none where the range is empty; otherwise the
/// first starts at `start`, each starts where the one before ended, none is empty or longer
/// than `size`, all but the last are `size` long, and the last ends at `end`; so every index
/// of the range is in a chunk, and the chunks are increasing and disjoint.
pub proof fn lemma_chunks_cover(start: int, end: int, size: int)
    requires
        size > 0,
    ensures
        ({
            let c = spec_chunks(start, end, size);
            &&& start >= end ==> c.len() == 0
            &&& start < end ==> c.len() > 0 && c[0].0 == start && c.last().1 == end
            &&& forall|i: int| #![trigger c[i]] 0 <= i < c.len() ==> c[i].0 < c[i].1 <= c[i].0 + size
            &&& forall|i: int| #![trigger c[i]]
                0 <= i < c.len() - 1 ==> c[i].1 == c[i + 1].0 && c[i].1 - c[i].0 == size
            &&& forall|x: int| start <= x < end ==> #[trigger] in_some_chunk(c, x)
        }),
    decreases end - start,
{
    let c = spec_chunks(start, end, size);
    if start < end {
        let e = spec_chunk_end(start, end, size);
        let rest = spec_chunks(e, end, size);
        lemma_chunks_cover(e, end, size);
        assert(c == seq![(start, e)] + rest);
        assert forall|i: int| #![trigger c[i]] 0 <= i < c.len() implies c[i].0 < c[i].1 <= c[i].0
            + size by {
            if i > 0 {
                assert(c[i] == rest[i - 1]);
            }
        }
        assert forall|i: int| #![trigger c[i]] 0 <= i < c.len() - 1 implies c[i].1 == c[i + 1].0
            && c[i].1 - c[i].0 == size by {
            assert(c[i + 1] == rest[i]);
            if i > 0 {
                assert(c[i] == rest[i - 1]);
            } else {
                assert(rest.len() > 0);
            }
        }
        assert forall|x: int| start <= x < end implies #[trigger] in_some_chunk(c, x) by {
            if x < e {
                assert(c[0].0 <= x < c[0].1);
            } else {
                assert(in_some_chunk(rest, x));
                let j = choose|j: int| 0 <= j < rest.len() && rest[j].0 <= x && x < #[trigger] rest[j].1;
                assert(c[j + 1] == rest[j]);
                assert(c[j + 1].0 <= x < c[j + 1].1);
            }
        }
        if rest.len() > 0 {
            assert(c.last() == rest.last());
        }
    }
}

} // verus!
