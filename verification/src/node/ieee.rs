//! Single-precision numbers as bit patterns.
//!
//! Comparisons, classification and sign handling are decided here on the
//! bits. Rounding arithmetic and the elementary functions come from a
//! [`FloatOps`] provider.

use vstd::prelude::*;

verus! {

/// An IEEE-754 binary32 number, held as its 32-bit pattern.
#[derive(Clone, Copy, Debug, PartialEq, Eq, Hash, Structural)]
pub struct Float32 {
    pub bits: u32,
}

/// Bit pattern of `0.0`.
pub const ZERO_BITS: u32 = 0;

/// Bit pattern of `1.0`.
pub const ONE_BITS: u32 = 0x3F80_0000;

/// Bit pattern of `0.5`.
pub const HALF_BITS: u32 = 0x3F00_0000;

/// Bit pattern of positive infinity.
pub const INFINITY_BITS: u32 = 0x7F80_0000;

/// The sign bit.
pub const SIGN_BIT: u32 = 0x8000_0000;

/// Bit pattern of 2 to the power -24, the spacing of unit draws.
pub const UNIT_STEP_BITS: u32 = 0x3380_0000;

/// The elementary functions that a provider computes.
#[derive(Clone, Copy, Debug, PartialEq, Eq, Hash, Structural)]
pub enum MathFn {
    Sin,
    Cos,
    Tan,
    ASin,
    ACos,
    ATan,
    Sinh,
    Cosh,
    Tanh,
    ASinh,
    ACosh,
    ATanh,
    Exp,
    Log,
}

/// The rounding arithmetic operations that a provider computes.
#[derive(Clone, Copy, Debug, PartialEq, Eq, Hash, Structural)]
pub enum ArithFn {
    Add,
    Sub,
    Mul,
    Div,
    Pow,
}

/// Single-precision arithmetic.
///
/// Each operation comes as a pair: the mathematical function that contracts
/// speak of, and the computation that returns its value. An implementation
/// promises that the two agree, which makes every operation a function of
/// its arguments alone.
pub trait FloatOps {
    /// The value of the elementary function `f` at `x`.
    spec fn unary_of(&self, f: MathFn, x: Float32) -> Float32;

    /// The value of `l f r`, rounded.
    spec fn binary_of(&self, f: ArithFn, l: Float32, r: Float32) -> Float32;

    /// The number nearest to the count `n`.
    spec fn count_of(&self, n: u64) -> Float32;

    /// The decimal text of `x`.
    spec fn text_of(&self, x: Float32) -> String;

    fn unary(&self, f: MathFn, x: Float32) -> (r: Float32)
        ensures
            r == self.unary_of(f, x),
    ;

    fn binary(&self, f: ArithFn, l: Float32, r: Float32) -> (out: Float32)
        ensures
            out == self.binary_of(f, l, r),
    ;

    fn from_count(&self, n: u64) -> (r: Float32)
        ensures
            r == self.count_of(n),
    ;

    fn text(&self, x: Float32) -> (r: String)
        ensures
            r@ == self.text_of(x)@,
    ;
}

impl Float32 {
    /// The pattern without its sign bit.
    pub open spec fn magnitude(self) -> int {
        if self.bits >= SIGN_BIT {
            self.bits - SIGN_BIT
        } else {
            self.bits as int
        }
    }

    /// Whether the sign bit is set.
    pub open spec fn negative(self) -> bool {
        self.bits >= SIGN_BIT
    }

    /// Whether the pattern is no number.
    pub open spec fn nan(self) -> bool {
        self.magnitude() > INFINITY_BITS
    }

    /// Whether the pattern is a number that is not infinite.
    pub open spec fn finite(self) -> bool {
        self.magnitude() < INFINITY_BITS
    }

    /// Position on the number line, in units that grow with the value. Both
    /// zeros stand at 0. Meaningful for patterns that are not NaN.
    pub open spec fn rank(self) -> int {
        if self.negative() {
            -self.magnitude()
        } else {
            self.magnitude()
        }
    }

    /// Position in the total order of all patterns: negative NaN lowest, then
    /// negative numbers, -0, +0, positive numbers, positive NaN highest.
    pub open spec fn order_key(self) -> int {
        if self.negative() {
            -1 - self.magnitude()
        } else {
            self.magnitude()
        }
    }

    /// Numeric equality: false when either side is NaN, true for the two zeros.
    pub open spec fn eq_value(self, other: Float32) -> bool {
        !self.nan() && !other.nan() && self.rank() == other.rank()
    }

    /// Numeric `<`: false when either side is NaN.
    pub open spec fn lt_value(self, other: Float32) -> bool {
        !self.nan() && !other.nan() && self.rank() < other.rank()
    }

    /// Numeric `<=`: false when either side is NaN.
    pub open spec fn le_value(self, other: Float32) -> bool {
        !self.nan() && !other.nan() && self.rank() <= other.rank()
    }

    /// The pattern with the sign bit cleared.
    pub open spec fn abs_value(self) -> Float32 {
        Float32 { bits: self.magnitude() as u32 }
    }

    /// The pattern with the sign bit flipped.
    pub open spec fn neg_value(self) -> Float32 {
        if self.negative() {
            Float32 { bits: (self.bits - SIGN_BIT) as u32 }
        } else {
            Float32 { bits: (self.bits + SIGN_BIT) as u32 }
        }
    }

    /// 2 to the power `k`: exact up to `k == 127`, infinite beyond.
    pub open spec fn pow2_value(k: nat) -> Float32 {
        if k <= 127 {
            Float32 { bits: ((k + 127) * 0x80_0000) as u32 }
        } else {
            Float32 { bits: INFINITY_BITS }
        }
    }

    /// The number with the given bit pattern.
    pub fn new(bits: u32) -> (r: Float32)
        ensures
            r.bits == bits,
    {
        Float32 { bits }
    }

    /// The number `0.0`.
    pub fn zero() -> (r: Float32)
        ensures
            r.bits == ZERO_BITS,
    {
        Float32 { bits: ZERO_BITS }
    }

    /// The number `1.0`.
    pub fn one() -> (r: Float32)
        ensures
            r.bits == ONE_BITS,
    {
        Float32 { bits: ONE_BITS }
    }

    fn magnitude_bits(self) -> (r: u32)
        ensures
            r == self.magnitude(),
            r < SIGN_BIT,
    {
        if self.bits >= SIGN_BIT {
            self.bits - SIGN_BIT
        } else {
            self.bits
        }
    }

    fn rank_of(self) -> (r: i64)
        ensures
            r == self.rank(),
    {
        let m: u32 = self.magnitude_bits();
        if self.bits >= SIGN_BIT {
            -(m as i64)
        } else {
            m as i64
        }
    }

    /// Whether the pattern is no number.
    pub fn is_nan(self) -> (r: bool)
        ensures
            r == self.nan(),
    {
        self.magnitude_bits() > INFINITY_BITS
    }

    /// Whether the pattern is a number that is not infinite.
    pub fn is_finite(self) -> (r: bool)
        ensures
            r == self.finite(),
    {
        self.magnitude_bits() < INFINITY_BITS
    }

    /// Numeric `==`.
    pub fn equals(self, other: Float32) -> (r: bool)
        ensures
            r == self.eq_value(other),
    {
        !self.is_nan() && !other.is_nan() && self.rank_of() == other.rank_of()
    }

    /// Numeric `!=`.
    pub fn differs(self, other: Float32) -> (r: bool)
        ensures
            r == !self.eq_value(other),
    {
        !self.equals(other)
    }

    /// Numeric `<`.
    pub fn lt(self, other: Float32) -> (r: bool)
        ensures
            r == self.lt_value(other),
    {
        !self.is_nan() && !other.is_nan() && self.rank_of() < other.rank_of()
    }

    /// Numeric `<=`.
    pub fn le(self, other: Float32) -> (r: bool)
        ensures
            r == self.le_value(other),
    {
        !self.is_nan() && !other.is_nan() && self.rank_of() <= other.rank_of()
    }

    /// Numeric `>`.
    pub fn gt(self, other: Float32) -> (r: bool)
        ensures
            r == other.lt_value(self),
    {
        other.lt(self)
    }

    /// Numeric `>=`.
    pub fn ge(self, other: Float32) -> (r: bool)
        ensures
            r == other.le_value(self),
    {
        other.le(self)
    }

    /// The absolute value.
    pub fn abs(self) -> (r: Float32)
        ensures
            r == self.abs_value(),
    {
        Float32 { bits: self.magnitude_bits() }
    }

    /// The negation.
    pub fn neg(self) -> (r: Float32)
        ensures
            r == self.neg_value(),
    {
        if self.bits >= SIGN_BIT {
            Float32 { bits: self.bits - SIGN_BIT }
        } else {
            Float32 { bits: self.bits + SIGN_BIT }
        }
    }

    /// The key by which all patterns are totally ordered, moved into the
    /// unsigned range.
    pub fn total_key(self) -> (r: u32)
        ensures
            r == self.order_key() + 0x8000_0000,
    {
        if self.bits >= SIGN_BIT {
            0xFFFF_FFFF - self.bits
        } else {
            self.bits + SIGN_BIT
        }
    }

    /// 2 to the power `k`.
    pub fn pow2(k: usize) -> (r: Float32)
        ensures
            r == Self::pow2_value(k as nat),
    {
        if k <= 127 {
            let e: u32 = k as u32 + 127;
            Float32 { bits: e * 0x80_0000 }
        } else {
            Float32 { bits: INFINITY_BITS }
        }
    }
}

} // verus!
