//! Signed immediates held in a fixed number of bits of an instruction word.
use vstd::arithmetic::power2::pow2;
use vstd::prelude::*;

verus! {

/// The widths that an immediate may have.
pub enum ImmediateType {
    B14,
    B19,
}

impl ImmediateType {
    /// Width in bits.
    pub fn length(&self) -> (r: u32)
        ensures
            r == (match self {
                ImmediateType::B14 => 14u32,
                ImmediateType::B19 => 19u32,
            }),
    {
        match self {
            ImmediateType::B14 => 14,
            ImmediateType::B19 => 19,
        }
    }
}

/// Largest value of a two's complement number of `bits` bits.
pub open spec fn imm_max(bits: nat) -> int {
    pow2((bits - 1) as nat) - 1
}

/// Smallest value of a two's complement number of `bits` bits.
pub open spec fn imm_min(bits: nat) -> int {
    -pow2((bits - 1) as nat)
}

/// The number of consecutive one bits at the low end of `x`.
pub open spec fn spec_trailing_ones(x: u32) -> nat
    decreases x,
{
    if x & 1 == 0 {
        0
    } else {
        proof {
            assert(x & 1 != 0 ==> x >> 1 < x) by (bit_vector);
        }
        1 + spec_trailing_ones(x >> 1)
    }
}

/// A mask of `t` low one bits has exactly `t` trailing ones.
pub proof fn lemma_trailing_ones_low_mask(t: u32)
    requires
        t <= 31,
    ensures
        spec_trailing_ones(((1u32 << t) - 1) as u32) == t,
    decreases t,
{
    let x = ((1u32 << t) - 1) as u32;
    if t == 0 {
        assert(((1u32 << 0u32) - 1) as u32 & 1 == 0) by (bit_vector);
    } else {
        let t1 = (t - 1) as u32;
        assert(x & 1 == 1 && x >> 1 == ((1u32 << t1) - 1) as u32) by (bit_vector)
            requires
                x == ((1u32 << t) - 1) as u32,
                1 <= t <= 31,
                t1 == t - 1,
        ;
        lemma_trailing_ones_low_mask(t1);
    }
}

/// Read the `bits` low bits of `masked` (all higher bits clear) as a two's complement number.
pub open spec fn sign_extend(masked: u32, bits: nat) -> int {
    if masked >= pow2((bits - 1) as nat) {
        masked - pow2(bits)
    } else {
        masked as int
    }
}

/// The number of trailing one bits of `x`.
pub fn trailing_ones(x: u32) -> (r: u32)
    ensures
        r == spec_trailing_ones(x),
        r <= 32,
{
    let mut rest = x;
    let mut n: u32 = 0;
    proof {
        lemma_trailing_ones_bound(x);
    }
    while rest & 1 == 1
        invariant
            spec_trailing_ones(x) == n + spec_trailing_ones(rest),
            n + spec_trailing_ones(rest) <= 32,
        decreases rest,
    {
        assert(rest & 1 == 1 ==> rest >> 1 < rest) by (bit_vector);
        proof {
            lemma_trailing_ones_bound(rest);
        }
        n = n + 1;
        rest = rest >> 1;
    }
    assert(rest & 1 != 1 ==> rest & 1 == 0) by (bit_vector);
    n
}

/// At most 32 trailing ones; `x >> 1` drops exactly one of them when the low bit is set.
proof fn lemma_trailing_ones_bound(x: u32)
    ensures
        spec_trailing_ones(x) <= 32,
{
    vstd::arithmetic::power2::lemma2_to64();
    lemma_trailing_ones_bound_n(x, 32);
}

proof fn lemma_trailing_ones_bound_n(x: u32, n: nat)
    requires
        n <= 32,
        x < pow2(n),
    ensures
        spec_trailing_ones(x) <= n,
    decreases n,
{
    vstd::arithmetic::power2::lemma2_to64();
    if x & 1 != 0 {
        assert(x & 1 != 0 ==> x >> 1 < x) by (bit_vector);
        if n == 0 {
            assert(x == 0);
            assert(0u32 & 1 == 0) by (bit_vector);
        } else {
            vstd::bits::lemma_u32_shr_is_div(x, 1);
            vstd::arithmetic::power2::lemma_pow2_unfold(n);
            vstd::arithmetic::power2::lemma2_to64();
            assert(x >> 1 < pow2((n - 1) as nat));
            lemma_trailing_ones_bound_n(x >> 1, (n - 1) as nat);
        }
    }
}

/// A value out of the range of an immediate.
#[derive(Debug, Clone, Copy, PartialEq, Eq, Structural)]
pub enum ImmediateValueError {
    /// `value` does not fit into `bits` bits.
    OutOfRange { value: i32, bits: u32 },
}

/// A signed immediate of `BIT` bits (14 or 19).
#[derive(Debug, PartialEq, Eq, Clone, Copy)]
pub struct Immediate<const BIT: u32>(i32);

pub type Immediate14 = Immediate<14>;

pub type Immediate19 = Immediate<19>;

impl<const BIT: u32> View for Immediate<BIT> {
    type V = i32;

    closed spec fn view(&self) -> i32 {
        self.0
    }
}

impl<const BIT: u32> Immediate<BIT> {
    /// The immediate holding `value`.
    pub closed spec fn spec_from_value(value: i32) -> Self {
        Immediate(value)
    }

    /// `spec_from_value` holds the value it was given, and an immediate is its value.
    pub proof fn lemma_from_value(value: i32, imm: Self)
        ensures
            Self::spec_from_value(value)@ == value,
            Self::spec_from_value(imm@) == imm,
    {
    }

    /// The value fits into the immediate's width.
    pub open spec fn in_range(value: int) -> bool {
        imm_min(BIT as nat) <= value <= imm_max(BIT as nat)
    }

    /// An immediate; the value must fit into `BIT` bits.
    pub fn new(value: i32) -> (r: Self)
        requires
            BIT == 14 || BIT == 19,
            Self::in_range(value as int),
        ensures
            r@ == value,
            r == Self::spec_from_value(value),
    {
        Immediate(value)
    }

    /// An immediate, or an error when the value does not fit into `BIT` bits.
    pub fn try_new(value: i32) -> (r: Result<Self, ImmediateValueError>)
        requires
            BIT == 14 || BIT == 19,
        ensures
            r matches Ok(imm) ==> imm@ == value && Self::in_range(value as int),
            r is Err <==> !Self::in_range(value as int),
            r matches Err(e) ==> e == (ImmediateValueError::OutOfRange { value, bits: BIT }),
    {
        proof {
            vstd::arithmetic::power2::lemma2_to64();
        }
        let max: i32 = if BIT == 14 {
            8191
        } else {
            262143
        };
        let min: i32 = -(max + 1);
        if value >= min && value <= max {
            Ok(Immediate(value))
        } else {
            Err(ImmediateValueError::OutOfRange { value, bits: BIT })
        }
    }

    /// The value of the immediate.
    pub fn value(&self) -> (r: i32)
        ensures
            r == self@,
    {
        self.0
    }

    /// The value's bit pattern as an unsigned word.
    pub fn to_u32(&self) -> (r: u32)
        ensures
            r == self@ as u32,
    {
        self.0 as u32
    }

    /// The immediate whose value is the bit pattern `value` read as signed.
    pub fn from_u32(value: u32) -> (r: Self)
        ensures
            r@ == value as i32,
    {
        Immediate(value as i32)
    }

    /// Field of an instruction word: `(value & bit_mask) << bit_accumulation`.
    pub fn encode(&self, bit_mask: u32, bit_accumulation: u32) -> (r: u32)
        requires
            bit_accumulation < 32,
        ensures
            r == ((self@ as u32) & bit_mask) << bit_accumulation,
    {
        ((self.0 as u32) & bit_mask) << bit_accumulation
    }

    /// The value of the immediate held in the `bit_mask` wide field of `src` that starts at
    /// `bit_accumulation`, sign-extended from the width of the mask's trailing ones.
    pub fn decode(src: u32, bit_accumulation: u32, bit_mask: u32) -> (r: Self)
        requires
            bit_accumulation < 32,
            1 <= spec_trailing_ones(bit_mask) <= 31,
            ((src >> bit_accumulation) & bit_mask) < pow2(spec_trailing_ones(bit_mask)),
        ensures
            r@ == sign_extend((src >> bit_accumulation) & bit_mask, spec_trailing_ones(bit_mask)),
            r == Self::spec_from_value(r@),
    {
        Immediate(Self::convert_twos_complement_to_i32((src >> bit_accumulation) & bit_mask, bit_mask))
    }

    fn convert_twos_complement_to_i32(masked_value: u32, bit_mask: u32) -> (r: i32)
        requires
            1 <= spec_trailing_ones(bit_mask) <= 31,
            masked_value < pow2(spec_trailing_ones(bit_mask)),
        ensures
            r == sign_extend(masked_value, spec_trailing_ones(bit_mask)),
    {
        let t = trailing_ones(bit_mask);
        let t1: u32 = t - 1;
        proof {
            vstd::bits::lemma_u32_pow2_no_overflow(t1 as nat);
            vstd::bits::lemma_u32_shl_is_mul(1, t1);
            vstd::bits::lemma_u32_pow2_no_overflow(t as nat);
            vstd::bits::lemma_u32_shl_is_mul(1, t);
            vstd::arithmetic::power2::lemma_pow2_unfold(t as nat);
        }
        let sign_bit = 1u32 << t1;
        assert(sign_bit << 1 == 1u32 << t) by (bit_vector)
            requires
                sign_bit == 1u32 << t1,
                t == t1 + 1,
                t <= 31,
        ;
        assert((masked_value & sign_bit != 0) <==> masked_value >= sign_bit) by (bit_vector)
            requires
                sign_bit == 1u32 << t1,
                masked_value < 1u32 << t,
                t == t1 + 1,
                t <= 31,
        ;
        if masked_value & sign_bit != 0 {
            let positive_counterpart = (sign_bit << 1) - masked_value;
            -(positive_counterpart as i32)
        } else {
            masked_value as i32
        }
    }
}

} // verus!
