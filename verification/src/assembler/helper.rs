//! Small helpers on byte slices.
use vstd::prelude::*;

verus! {

/// Whether the two byte sequences are equal.
pub fn bytes_eq(a: &[u8], b: &[u8]) -> (r: bool)
    ensures
        r == (a@ == b@),
{
    if a.len() != b.len() {
        return false;
    }
    let mut i: usize = 0;
    while i < a.len()
        invariant
            a@.len() == b@.len(),
            i <= a@.len(),
            forall|j: int| 0 <= j < i ==> a@[j] == b@[j],
        decreases a@.len() - i,
    {
        if a[i] != b[i] {
            return false;
        }
        i = i + 1;
    }
    assert(a@ =~= b@);
    true
}

/// The bytes of an ASCII sequence as text.
pub open spec fn ascii_text(b: Seq<u8>) -> Seq<char> {
    b.map_values(|x: u8| x as char)
}

/// Every byte is ASCII.
pub open spec fn is_ascii(b: Seq<u8>) -> bool {
    forall|i: int| 0 <= i < b.len() ==> b[i] < 128
}

/// A `String` holding the ASCII bytes `b`, through `String::from_utf8`, which accepts every
/// ASCII sequence and keeps each byte as the character of the same code.
#[verifier::external_body]
pub(crate) fn ascii_string(b: Vec<u8>) -> (r: String)
    requires
        is_ascii(b@),
    ensures
        r@ == ascii_text(b@),
{
    String::from_utf8(b).unwrap()
}


/// Why a sequence of digits is not an integer of the wanted type.
#[derive(Debug, Clone, Copy, PartialEq, Eq, Structural)]
pub enum IntErrorKind {
    /// There is no digit
    Empty,
    /// A byte is not a digit of the base
    InvalidDigit,
    /// The value is too large
    PosOverflow,
    /// The value is too small
    NegOverflow,
}

/// The value of the digit `b` (`0-9`, `a-z`, `A-Z`), or 36 where `b` is none.
pub open spec fn digit_value(b: u8) -> nat {
    if 48 <= b <= 57 {
        (b - 48) as nat
    } else if 97 <= b <= 122 {
        (b - 87) as nat
    } else if 65 <= b <= 90 {
        (b - 55) as nat
    } else {
        36
    }
}

/// Every byte is a digit of `base`.
pub open spec fn all_digits(t: Seq<u8>, base: nat) -> bool {
    forall|i: int| 0 <= i < t.len() ==> digit_value(#[trigger] t[i]) < base
}

/// The value of the digits `t` in `base`, the most significant first.
pub open spec fn digits_value(t: Seq<u8>, base: nat) -> nat
    decreases t.len(),
{
    if t.len() == 0 {
        0
    } else {
        digits_value(t.drop_last(), base) * base + digit_value(t.last())
    }
}

/// The integer that the digits `t` in `base`, negated where `negative`, stand for, if it lies
/// in `min..=max`: what `from_str_radix` gives for a sign and these digits.
pub open spec fn spec_parse_int(t: Seq<u8>, base: nat, negative: bool, min: int, max: int) -> Result<
    int,
    IntErrorKind,
> {
    if t.len() == 0 {
        Err(IntErrorKind::Empty)
    } else if !all_digits(t, base) {
        Err(IntErrorKind::InvalidDigit)
    } else if negative {
        if -digits_value(t, base) < min {
            Err(IntErrorKind::NegOverflow)
        } else {
            Ok(-digits_value(t, base))
        }
    } else if digits_value(t, base) > max {
        Err(IntErrorKind::PosOverflow)
    } else {
        Ok(digits_value(t, base) as int)
    }
}

/// The value of the digit `b`, or 36 where it is none.
pub fn exec_digit_value(b: u8) -> (r: u64)
    ensures
        r == digit_value(b),
{
    if b >= 48 && b <= 57 {
        (b - 48) as u64
    } else if b >= 97 && b <= 122 {
        (b - 87) as u64
    } else if b >= 65 && b <= 90 {
        (b - 55) as u64
    } else {
        36
    }
}

/// The value of digits, capped at 2^33.
pub open spec fn capped(v: nat) -> nat {
    if v < 0x2_0000_0000 {
        v
    } else {
        0x2_0000_0000
    }
}

proof fn lemma_capped_step(v: nat, base: nat, d: nat)
    requires
        1 <= base <= 36,
        d < 36,
    ensures
        capped(capped(v) * base + d) == capped(v * base + d),
{
    if v >= 0x2_0000_0000 {
        assert(v * base >= 0x2_0000_0000) by (nonlinear_arith)
            requires
                v >= 0x2_0000_0000,
                base >= 1,
        ;
        assert(0x2_0000_0000 * base >= 0x2_0000_0000) by (nonlinear_arith)
            requires
                base >= 1,
        ;
    }
}

/// The digits `t` in `base`, negated where `negative`, as an integer in `min..=max`; the
/// error where they are none, hold a byte that is no digit, or give a value out of range.
pub fn parse_int(t: &[u8], base: u32, negative: bool, min: i64, max: i64) -> (r: Result<
    i64,
    IntErrorKind,
>)
    requires
        2 <= base <= 36,
        -0x1_0000_0000 <= min <= 0 <= max <= 0x1_0000_0000,
    ensures
        r matches Ok(v) ==> spec_parse_int(t@, base as nat, negative, min as int, max as int)
            == Ok::<int, IntErrorKind>(v as int),
        r matches Err(e) ==> spec_parse_int(t@, base as nat, negative, min as int, max as int)
            == Err::<int, IntErrorKind>(e),
{
    if t.len() == 0 {
        return Err(IntErrorKind::Empty);
    }
    let mut acc: u64 = 0;
    let mut i: usize = 0;
    while i < t.len()
        invariant
            2 <= base <= 36,
            i <= t@.len(),
            acc == capped(digits_value(t@.subrange(0, i as int), base as nat)),
            all_digits(t@.subrange(0, i as int), base as nat),
        decreases t@.len() - i,
    {
        let d = exec_digit_value(t[i]);
        if d >= base as u64 {
            proof {
                assert(!all_digits(t@, base as nat)) by {
                    assert(digit_value(t@[i as int]) >= base);
                }
            }
            return Err(IntErrorKind::InvalidDigit);
        }
        proof {
            let p = t@.subrange(0, i + 1);
            assert(p.drop_last() =~= t@.subrange(0, i as int));
            lemma_capped_step(digits_value(t@.subrange(0, i as int), base as nat), base as nat, d as nat);
            assert(acc * base + d <= 0x2_0000_0000 * 36 + 36) by (nonlinear_arith)
                requires
                    acc <= 0x2_0000_0000,
                    base <= 36,
                    d < 36,
            ;
            assert(all_digits(p, base as nat)) by {
                assert forall|j: int| 0 <= j < p.len() implies digit_value(#[trigger] p[j])
                    < base by {
                    if j < i {
                        assert(p[j] == t@.subrange(0, i as int)[j]);
                    }
                }
            }
        }
        let next = acc * (base as u64) + d;
        acc = if next < 0x2_0000_0000 {
            next
        } else {
            0x2_0000_0000
        };
        i = i + 1;
    }
    proof {
        assert(t@.subrange(0, t@.len() as int) =~= t@);
    }
    if negative {
        if (acc as i64) > -min {
            Err(IntErrorKind::NegOverflow)
        } else {
            Ok(-(acc as i64))
        }
    } else if (acc as i64) > max {
        Err(IntErrorKind::PosOverflow)
    } else {
        Ok(acc as i64)
    }
}

} // verus!
