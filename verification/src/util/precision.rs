//! The two number formats of the network, and numbers of them by their bit patterns.

use vstd::arithmetic::mul::lemma_mul_strict_inequality;
use vstd::arithmetic::power2::{
    lemma_pow2_pos, lemma_pow2_strictly_increases, lemma_pow2_unfold, pow2,
};
use vstd::prelude::*;

verus! {

/// A floating point format.
#[derive(Debug, Clone, Copy, PartialEq, Eq, Structural)]
pub enum Precision {
    /// 32-bit floating point
    FP32,
    /// 16-bit floating point
    FP16,
}

impl Precision {
    /// The number of bytes that one number takes.
    pub open spec fn width(self) -> nat {
        match self {
            Precision::FP32 => 4,
            Precision::FP16 => 2,
        }
    }

    /// The number of bytes that one number takes.
    pub fn size_bytes(&self) -> (r: usize)
        ensures
            r == self.width(),
    {
        match self {
            Precision::FP32 => 4,
            Precision::FP16 => 2,
        }
    }
}

/// A 32-bit floating point number, by its IEEE 754 bit pattern.
#[derive(Debug, Clone, Copy, PartialEq, Eq, Structural)]
pub struct F32 {
    pub bits: u32,
}

impl F32 {
    /// The bit pattern without the sign.
    pub open spec fn magnitude(self) -> int {
        self.bits as int % 0x8000_0000
    }

    /// The number is not a number: its magnitude is beyond that of the infinities.
    pub open spec fn is_nan_spec(self) -> bool {
        self.magnitude() > 0x7f80_0000
    }

    /// Where the number stands among those that are numbers: of two of them, the smaller one has the
    /// smaller rank, and both zeros have the same.
    pub open spec fn rank(self) -> int {
        if self.bits < 0x8000_0000 {
            self.magnitude()
        } else {
            -self.magnitude()
        }
    }

    /// Returns true if this is not a number.
    pub fn is_nan(self) -> (r: bool)
        ensures
            r == self.is_nan_spec(),
    {
        self.bits % 0x8000_0000 > 0x7f80_0000
    }

    /// Where the number stands among those that are numbers.
    fn to_rank(self) -> (r: i64)
        ensures
            r == self.rank(),
    {
        let magnitude: i64 = (self.bits % 0x8000_0000) as i64;
        if self.bits < 0x8000_0000 {
            magnitude
        } else {
            0 - magnitude
        }
    }

    /// Returns true if this number is smaller than another one. What is not a number is neither
    /// smaller nor larger than anything.
    pub fn is_less(self, other: Self) -> (r: bool)
        ensures
            r == self.less(other),
    {
        !self.is_nan() && !other.is_nan() && self.to_rank() < other.to_rank()
    }

    /// This number is smaller than another one.
    pub open spec fn less(self, other: Self) -> bool {
        !self.is_nan_spec() && !other.is_nan_spec() && self.rank() < other.rank()
    }

    /// The larger one of two numbers, and the only one where the other is not a number. Of two equal
    /// ones it is this.
    pub open spec fn larger(self, other: Self) -> Self {
        if self.is_nan_spec() || self.less(other) {
            other
        } else {
            self
        }
    }

    /// The larger one of two numbers, and the only one where the other is not a number.
    pub fn max(self, other: Self) -> (r: Self)
        ensures
            r == self.larger(other),
    {
        if self.is_nan() || self.is_less(other) {
            other
        } else {
            self
        }
    }
}

/// A 16-bit floating point number, by its IEEE 754 bit pattern.
#[derive(Debug, Clone, Copy, PartialEq, Eq, Structural)]
pub struct F16 {
    pub bits: u16,
}

/// The bit pattern of `1.0` in 32 bits.
pub const ONE_IN_32_BITS: u32 = 0x3f80_0000;

/// The bit pattern of `1.0` in 16 bits.
pub const ONE_IN_16_BITS: u16 = 0x3c00;

/// Marks the formats that the network supports; no other type can join them.
pub trait Sealed {

}

impl Sealed for F32 {

}

impl Sealed for F16 {

}

/// Stands for [`F32`] and [`F16`], the two formats that the network supports.
pub trait PrecisionType: Sealed + Copy {
    /// The format.
    spec fn format() -> Precision;

    /// The bit pattern of the number.
    spec fn pattern(self) -> u32;

    /// The number of a bit pattern; the bits beyond the width of the format do not count.
    spec fn of_pattern(bits: u32) -> Self;

    /// The pattern fits in the width of the format, and gives the number back.
    proof fn pattern_is_faithful(x: Self)
        ensures
            Self::format() == Precision::FP16 ==> x.pattern() <= 0xffff,
            Self::of_pattern(x.pattern()) == x,
    ;

    /// `0.0`
    fn zero() -> (r: Self)
        ensures
            r.pattern() == 0,
    ;

    /// `1.0`
    fn one() -> (r: Self)
        ensures
            r.pattern() == match Self::format() {
                Precision::FP32 => ONE_IN_32_BITS,
                Precision::FP16 => ONE_IN_16_BITS as u32,
            },
    ;

    /// The format.
    fn precision() -> (r: Precision)
        ensures
            r == Self::format(),
    ;

    /// The bit pattern of the number.
    fn to_pattern(self) -> (r: u32)
        ensures
            r == self.pattern(),
    ;

    /// The number of a bit pattern.
    fn from_pattern(bits: u32) -> (r: Self)
        ensures
            r == Self::of_pattern(bits),
    ;
}

impl PrecisionType for F32 {
    open spec fn format() -> Precision {
        Precision::FP32
    }

    open spec fn pattern(self) -> u32 {
        self.bits
    }

    open spec fn of_pattern(bits: u32) -> Self {
        F32 { bits }
    }

    proof fn pattern_is_faithful(x: Self) {
    }

    fn zero() -> (r: Self) {
        F32 { bits: 0 }
    }

    fn one() -> (r: Self) {
        F32 { bits: ONE_IN_32_BITS }
    }

    fn precision() -> (r: Precision) {
        Precision::FP32
    }

    fn to_pattern(self) -> (r: u32) {
        self.bits
    }

    fn from_pattern(bits: u32) -> (r: Self) {
        F32 { bits }
    }
}

impl PrecisionType for F16 {
    open spec fn format() -> Precision {
        Precision::FP16
    }

    open spec fn pattern(self) -> u32 {
        self.bits as u32
    }

    open spec fn of_pattern(bits: u32) -> Self {
        F16 { bits: bits as u16 }
    }

    proof fn pattern_is_faithful(x: Self) {
    }

    fn zero() -> (r: Self) {
        F16 { bits: 0 }
    }

    fn one() -> (r: Self) {
        F16 { bits: ONE_IN_16_BITS }
    }

    fn precision() -> (r: Precision) {
        Precision::FP16
    }

    fn to_pattern(self) -> (r: u32) {
        self.bits as u32
    }

    fn from_pattern(bits: u32) -> (r: Self) {
        #[verifier::truncate]
        let low: u16 = bits as u16;
        F16 { bits: low }
    }
}

/// What the bits of a number without its sign stand for, in units of the smallest number above zero:
/// eight bits of exponent and twenty-three of mantissa, which have a leading one in front of them
/// unless the exponent is zero. The infinities are larger than all numbers.
pub open spec fn unit_count(exponent: nat, mantissa: nat) -> nat {
    if exponent == 0 {
        mantissa
    } else {
        (0x80_0000 + mantissa) * pow2((exponent - 1) as nat)
    }
}

impl F32 {
    /// What a number stands for, in units of the smallest number above zero.
    pub open spec fn units(self) -> int {
        let bits = self.bits as nat % 0x8000_0000;
        let size = unit_count(bits / 0x80_0000, bits % 0x80_0000) as int;
        if self.bits >= 0x8000_0000 {
            -size
        } else {
            size
        }
    }
}

/// More bits without the sign stand for a larger number.
proof fn lemma_units_grow(e1: nat, m1: nat, e2: nat, m2: nat)
    requires
        m1 < 0x80_0000,
        m2 < 0x80_0000,
        e1 < e2 || (e1 == e2 && m1 < m2),
    ensures
        unit_count(e1, m1) < unit_count(e2, m2),
{
    if e1 == e2 {
        if e1 > 0 {
            let p = pow2((e1 - 1) as nat) as int;
            lemma_pow2_pos((e1 - 1) as nat);
            lemma_mul_strict_inequality((0x80_0000 + m1) as int, (0x80_0000 + m2) as int, p);
            assert(0 <= (0x80_0000 + m1) * p) by (nonlinear_arith)
                requires
                    0 < p,
                    0 <= m1,
            ;
        }
    } else {
        let q = pow2((e2 - 1) as nat) as int;
        lemma_pow2_pos((e2 - 1) as nat);
        assert(0x80_0000 * q <= (0x80_0000 + m2) * q) by (nonlinear_arith)
            requires
                0 < q,
                0 <= m2,
        ;
        if e1 == 0 {
            assert(0x80_0000 <= 0x80_0000 * q) by (nonlinear_arith)
                requires
                    1 <= q,
            ;
        } else {
            let p = pow2((e1 - 1) as nat) as int;
            lemma_pow2_pos((e1 - 1) as nat);
            lemma_pow2_unfold(e1);
            if e1 < e2 - 1 {
                lemma_pow2_strictly_increases(e1, (e2 - 1) as nat);
            }
            assert(2 * p <= q);
            assert(0 <= (0x80_0000 + m1) * p < 0x80_0000 * q) by (nonlinear_arith)
                requires
                    0 <= m1 < 0x80_0000,
                    0 < p,
                    2 * p <= q,
            ;
        }
    }
}

/// One number is smaller than another one exactly if it stands for less, where both are numbers. What
/// is not a number is neither smaller nor larger than anything.
pub proof fn law_smaller_numbers_stand_for_less(a: F32, b: F32)
    ensures
        a.is_nan_spec() || b.is_nan_spec() ==> !a.less(b) && !b.less(a),
        !a.is_nan_spec() && !b.is_nan_spec() ==> (a.less(b) <==> a.units() < b.units()),
{
    let (x, y) = (a.bits as nat % 0x8000_0000, b.bits as nat % 0x8000_0000);
    let (e1, m1) = (x / 0x80_0000, x % 0x80_0000);
    let (e2, m2) = (y / 0x80_0000, y % 0x80_0000);
    assert(unit_count(0, 0) == 0);
    if e1 > 0 || m1 > 0 {
        lemma_units_grow(0, 0, e1, m1);
    }
    if e2 > 0 || m2 > 0 {
        lemma_units_grow(0, 0, e2, m2);
    }
    if x < y {
        lemma_units_grow(e1, m1, e2, m2);
    } else if y < x {
        lemma_units_grow(e2, m2, e1, m1);
    }
}

/// The larger one of two numbers is one of them, and neither of them is above it; where one of them is
/// not a number, it is the other one.
pub proof fn law_larger_number_is_not_below(a: F32, b: F32)
    ensures
        a.larger(b) == a || a.larger(b) == b,
        !a.larger(b).less(a) && !a.larger(b).less(b),
        a.larger(b).is_nan_spec() <==> a.is_nan_spec() && b.is_nan_spec(),
{
}

} // verus!
