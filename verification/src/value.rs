//! Register values.
//!
//! Every cell of the machine holds an IEEE 754 single-precision number. The
//! core keeps such a number as its 32-bit pattern and reads from the pattern
//! what it needs to decide: sign, order, truth, and the whole part that
//! addresses a line or a stack cell. Arithmetic on the numbers is the float
//! unit's business and never happens here.

use vstd::prelude::*;
use vstd::arithmetic::power2::*;
use vstd::arithmetic::div_mod::*;
use vstd::arithmetic::mul::*;
use vstd::bits::*;

verus! {

/// Pattern of `1.0`.
pub const ONE_BITS: u32 = 0x3f80_0000;

/// The sign bit; every pattern at or above it is negative.
pub const SIGN_BIT: u32 = 0x8000_0000;

/// Pattern of positive infinity; a larger magnitude is not a number.
pub const INFINITY_BITS: u32 = 0x7f80_0000;

/// The bit that a normal number's fraction leaves out.
pub const HIDDEN_BIT: u32 = 0x0080_0000;

/// A single-precision number, held as its bit pattern. Two values are equal
/// when their patterns are; the numeric order is `lt`, `le`, `gt`, `ge`.
#[derive(Clone, Copy, Debug, PartialEq, Eq, Structural)]
pub struct Value {
    pub bits: u32,
}

/// How many binary digits `n` has: 0 for 0, else one more than the position
/// of its highest set bit.
pub open spec fn span(n: nat) -> nat
    decreases n,
{
    if n == 0 {
        0
    } else {
        1 + span(n / 2)
    }
}

/// A number with `k` binary digits lies in `[2^(k-1), 2^k)`.
pub proof fn lemma_span_bounds(n: nat)
    ensures
        n < pow2(span(n)),
        n > 0 ==> pow2((span(n) - 1) as nat) <= n,
    decreases n,
{
    lemma2_to64();
    if n > 0 {
        lemma_span_bounds(n / 2);
        lemma_pow2_unfold(span(n));
        if n / 2 > 0 {
            lemma_pow2_unfold((span(n) - 1) as nat);
        }
    }
}

/// A number below `2^k` has at most `k` binary digits.
pub proof fn lemma_span_limit(n: nat, k: nat)
    requires
        n < pow2(k),
    ensures
        span(n) <= k,
    decreases n,
{
    lemma2_to64();
    if n > 0 {
        if k == 0 {
        } else {
            lemma_pow2_unfold(k);
            lemma_span_limit(n / 2, (k - 1) as nat);
        }
    }
}

impl Value {
    /// The pattern without its sign bit.
    pub open spec fn magnitude(self) -> int {
        self.bits as int % 0x8000_0000
    }

    /// The sign bit is set (true of `-0.0` too).
    pub open spec fn is_negative(self) -> bool {
        self.bits >= SIGN_BIT
    }

    /// The pattern is not a number.
    pub open spec fn is_nan(self) -> bool {
        self.magnitude() > INFINITY_BITS
    }

    /// The biased exponent, 0 to 255.
    pub open spec fn exponent(self) -> int {
        self.magnitude() / 0x80_0000
    }

    /// The 23 fraction bits.
    pub open spec fn fraction(self) -> int {
        self.bits as int % 0x80_0000
    }

    /// A number's place in the numeric order: patterns that are numbers
    /// compare as their ranks do, and both zeros have rank 0.
    pub open spec fn rank(self) -> int {
        if self.is_negative() {
            -self.magnitude()
        } else {
            self.magnitude()
        }
    }

    /// `self < other` as numbers; false when either is not a number.
    pub open spec fn less(self, other: Value) -> bool {
        !self.is_nan() && !other.is_nan() && self.rank() < other.rank()
    }

    /// `self <= other` as numbers; false when either is not a number.
    pub open spec fn at_most(self, other: Value) -> bool {
        !self.is_nan() && !other.is_nan() && self.rank() <= other.rank()
    }

    /// `self > 0.0`: what the logic opcodes take for true.
    pub open spec fn truthy(self) -> bool {
        !self.is_nan() && self.rank() > 0
    }

    /// `1.0` for true, `0.0` for false.
    pub open spec fn of_bool(b: bool) -> Value {
        if b {
            Value { bits: ONE_BITS }
        } else {
            Value { bits: 0 }
        }
    }

    /// The magnitude of a number in units of `2^-149`, the spacing of the
    /// smallest numbers; every finite number is a whole multiple of it.
    pub open spec fn scaled(self) -> nat {
        if self.exponent() == 0 {
            self.fraction() as nat
        } else {
            ((0x80_0000 + self.fraction()) * pow2((self.exponent() - 1) as nat)) as nat
        }
    }

    /// The magnitude with its fractional part cut off.
    pub open spec fn whole(self) -> nat {
        self.scaled() / pow2(149)
    }

    /// The line or cell that a value addresses: its whole part, 0 for what is
    /// negative or not a number, the largest index for what is too large.
    pub open spec fn index(self) -> usize {
        if self.is_nan() || self.is_negative() {
            0
        } else if self.whole() > usize::MAX {
            usize::MAX
        } else {
            self.whole() as usize
        }
    }

    /// The number nearest to `n`, the one with the even fraction where two
    /// are equally near. Up to `2^24` every `n` is a number itself.
    pub open spec fn nearest(n: nat) -> Value {
        if n == 0 {
            Value { bits: 0 }
        } else {
            let top = (span(n) - 1) as nat;
            if top <= 23 {
                Value {
                    bits: ((127 + top) * 0x80_0000 + (n * pow2((23 - top) as nat) - 0x80_0000)) as u32,
                }
            } else {
                let unit = pow2((top - 23) as nat);
                let kept = n / unit;
                let rest = n % unit;
                let up: int = if 2 * rest > unit || (2 * rest == unit && kept % 2 == 1) {
                    1
                } else {
                    0
                };
                Value { bits: ((127 + top) * 0x80_0000 + (kept - 0x80_0000) + up) as u32 }
            }
        }
    }

    /// What the whole part is, by the size of the exponent.
    pub proof fn lemma_whole(self)
        ensures
            self.exponent() < 127 ==> self.whole() == 0,
            127 <= self.exponent() <= 150 ==> self.whole() == (0x80_0000 + self.fraction()) / (pow2(
                (150 - self.exponent()) as nat,
            ) as int),
            150 < self.exponent() ==> self.whole() == (0x80_0000 + self.fraction()) * pow2(
                (self.exponent() - 150) as nat,
            ),
    {
        let e = self.exponent();
        let sig = 0x80_0000 + self.fraction();
        lemma2_to64();
        lemma_pow2_pos(149);
        if e == 0 {
            lemma_pow2_strictly_increases(23, 149);
            lemma_basic_div(self.fraction(), pow2(149) as int);
        } else if e < 127 {
            let low = pow2((e - 1) as nat);
            lemma_pow2_pos((e - 1) as nat);
            lemma_pow2_adds(24, (e - 1) as nat);
            lemma_mul_strict_inequality(sig, pow2(24) as int, low as int);
            if e + 23 < 149 {
                lemma_pow2_strictly_increases((e + 23) as nat, 149);
            }
            lemma_mul_nonnegative(sig, low as int);
            lemma_basic_div(sig * low, pow2(149) as int);
        } else if e <= 150 {
            let low = pow2((e - 1) as nat);
            let high = pow2((150 - e) as nat);
            lemma_pow2_pos((e - 1) as nat);
            lemma_pow2_pos((150 - e) as nat);
            lemma_pow2_adds((e - 1) as nat, (150 - e) as nat);
            lemma_mul_nonnegative(sig, low as int);
            lemma_div_denominator(sig * low, low as int, high as int);
            lemma_div_by_multiple(sig, low as int);
        } else {
            let high = pow2((e - 150) as nat);
            lemma_pow2_adds((e - 150) as nat, 149);
            lemma_mul_nonnegative(sig, high as int);
            lemma_mul_is_associative(sig, high as int, pow2(149) as int);
            lemma_div_by_multiple(sig * high, pow2(149) as int);
        }
    }

    /// A whole number up to `2^24` survives the way into a value and back.
    pub proof fn lemma_nearest_exact(n: nat)
        requires
            n <= 0x100_0000,
        ensures
            !Value::nearest(n).is_nan(),
            !Value::nearest(n).is_negative(),
            Value::nearest(n).whole() == n,
            Value::nearest(n).index() == n,
    {
        lemma2_to64();
        let v = Value::nearest(n);
        if n == 0 {
            v.lemma_whole();
        } else {
            lemma_span_bounds(n);
            let top = (span(n) - 1) as nat;
            assert(pow2(25) == 0x200_0000) by {
                lemma_pow2_unfold(25);
            }
            lemma_span_limit(n, 25);
            if top <= 23 {
                let scale = pow2((23 - top) as nat);
                lemma_pow2_pos((23 - top) as nat);
                lemma_pow2_adds(top, (23 - top) as nat);
                lemma_pow2_adds(top + 1, (23 - top) as nat);
                lemma_mul_inequality(pow2(top) as int, n as int, scale as int);
                lemma_mul_strict_inequality(n as int, pow2(top + 1) as int, scale as int);
                let sig = n * scale;
                assert(0x80_0000 <= sig < 0x100_0000);
                assert(v.bits == (127 + top) * 0x80_0000 + (sig - 0x80_0000));
                assert(v.exponent() == 127 + top);
                assert(v.fraction() == sig - 0x80_0000);
                v.lemma_whole();
                lemma_div_by_multiple(n as int, scale as int);
            } else {
                assert(top == 24);
                assert(n == 0x100_0000);
                assert(pow2(1) == 2);
                assert(v.bits == 151 * 0x80_0000);
                assert(v.exponent() == 151);
                assert(v.fraction() == 0);
                v.lemma_whole();
            }
        }
    }

    /// The value with the given pattern.
    pub fn from_bits(bits: u32) -> (r: Value)
        ensures
            r.bits == bits,
    {
        Value { bits }
    }

    /// The pattern.
    pub fn to_bits(self) -> (r: u32)
        ensures
            r == self.bits,
    {
        self.bits
    }

    /// `0.0`.
    pub fn zero() -> (r: Value)
        ensures
            r == (Value { bits: 0 }),
    {
        Value { bits: 0 }
    }

    /// `1.0`.
    pub fn one() -> (r: Value)
        ensures
            r == (Value { bits: ONE_BITS }),
    {
        Value { bits: ONE_BITS }
    }

    /// `1.0` for true, `0.0` for false.
    pub fn flag(b: bool) -> (r: Value)
        ensures
            r == Value::of_bool(b),
    {
        if b {
            Value { bits: ONE_BITS }
        } else {
            Value { bits: 0 }
        }
    }

    /// Whether the pattern is not a number.
    pub fn nan(self) -> (r: bool)
        ensures
            r == self.is_nan(),
    {
        self.bits % SIGN_BIT > INFINITY_BITS
    }

    fn ranked(self) -> (r: i64)
        ensures
            r == self.rank(),
    {
        let magnitude: u32 = self.bits % SIGN_BIT;
        let unsigned: i64 = magnitude as i64;
        if self.bits >= SIGN_BIT {
            -unsigned
        } else {
            unsigned
        }
    }

    /// `self < other` as numbers.
    pub fn lt(self, other: Value) -> (r: bool)
        ensures
            r == self.less(other),
    {
        !self.nan() && !other.nan() && self.ranked() < other.ranked()
    }

    /// `self <= other` as numbers.
    pub fn le(self, other: Value) -> (r: bool)
        ensures
            r == self.at_most(other),
    {
        !self.nan() && !other.nan() && self.ranked() <= other.ranked()
    }

    /// `self > other` as numbers.
    pub fn gt(self, other: Value) -> (r: bool)
        ensures
            r == other.less(self),
    {
        other.lt(self)
    }

    /// `self >= other` as numbers.
    pub fn ge(self, other: Value) -> (r: bool)
        ensures
            r == other.at_most(self),
    {
        other.le(self)
    }

    /// `self > 0.0`.
    pub fn is_true(self) -> (r: bool)
        ensures
            r == self.truthy(),
    {
        !self.nan() && self.ranked() > 0
    }

    /// The whole part as an index, cut to what an index can hold.
    pub fn to_index(self) -> (r: usize)
        ensures
            r == self.index(),
    {
        if self.nan() || self.bits >= SIGN_BIT {
            return 0;
        }
        let exponent: u32 = self.bits / HIDDEN_BIT;
        let significand: u64 = (HIDDEN_BIT + self.bits % HIDDEN_BIT) as u64;
        proof {
            self.lemma_whole();
            lemma2_to64();
        }
        if exponent < 127 {
            0
        } else if exponent <= 150 {
            let shift: u64 = (150 - exponent) as u64;
            proof {
                lemma_u64_shr_is_div(significand, shift);
                lemma_pow2_pos(shift as nat);
                lemma_div_is_ordered_by_denominator(significand as int, 1, pow2(shift as nat) as int);
            }
            (significand >> shift) as usize
        } else if exponent - 150 > 40 {
            proof {
                let high = pow2((exponent - 150) as nat);
                if exponent - 150 > 41 {
                    lemma_pow2_strictly_increases(41, (exponent - 150) as nat);
                }
                lemma_pow2_adds(23, 41);
                lemma_pow2_unfold(41);
                lemma_mul_inequality(pow2(41) as int, high as int, significand as int);
                lemma_mul_inequality(pow2(23) as int, significand as int, pow2(41) as int);
                lemma_mul_is_commutative(significand as int, high as int);
                lemma_mul_is_commutative(significand as int, pow2(41) as int);
                assert(pow2(64) <= significand * high);
            }
            usize::MAX
        } else {
            let shift: u64 = (exponent - 150) as u64;
            proof {
                let high = pow2(shift as nat);
                lemma_pow2_pos(shift as nat);
                if shift < 40 {
                    lemma_pow2_strictly_increases(shift as nat, 40);
                }
                lemma_pow2_adds(24, 40);
                lemma_mul_strict_inequality(significand as int, pow2(24) as int, high as int);
                lemma_mul_inequality(high as int, pow2(40) as int, pow2(24) as int);
                lemma_mul_is_commutative(high as int, pow2(24) as int);
                assert(significand * high < pow2(64));
                lemma_u64_shl_is_mul(significand, shift);
            }
            let wide: u64 = significand << shift;
            if wide > usize::MAX as u64 {
                usize::MAX
            } else {
                wide as usize
            }
        }
    }

    /// The number nearest to the index `n`.
    pub fn from_index(n: usize) -> (r: Value)
        ensures
            r == Value::nearest(n as nat),
    {
        let wide: u64 = n as u64;
        if wide == 0 {
            return Value { bits: 0 };
        }
        let mut top: u32 = 0;
        let mut rest: u64 = wide;
        proof {
            lemma2_to64();
            lemma2_to64_rest();
            lemma_span_limit(wide as nat, 64);
        }
        while rest > 1
            invariant
                rest >= 1,
                span(wide as nat) == span(rest as nat) + top,
                span(wide as nat) <= 64,
            decreases rest,
        {
            rest = rest / 2;
            top = top + 1;
        }
        proof {
            assert(span(1) == 1) by {
                assert(span(0) == 0);
                assert(span(1) == 1 + span(0));
            }
            assert(top == span(wide as nat) - 1);
            lemma_span_bounds(wide as nat);
        }
        if top <= 23 {
            let shift: u64 = (23 - top) as u64;
            proof {
                let scale = pow2(shift as nat);
                lemma_pow2_pos(shift as nat);
                lemma_pow2_adds(top as nat, shift as nat);
                lemma_pow2_adds((top + 1) as nat, shift as nat);
                lemma_mul_inequality(pow2(top as nat) as int, wide as int, scale as int);
                lemma_mul_strict_inequality(wide as int, pow2((top + 1) as nat) as int, scale as int);
                lemma_u64_shl_is_mul(wide, shift);
            }
            let significand: u64 = wide << shift;
            Value { bits: (127 + top) * HIDDEN_BIT + (significand - HIDDEN_BIT as u64) as u32 }
        } else {
            let shift: u64 = (top - 23) as u64;
            proof {
                lemma_pow2_pos(shift as nat);
                lemma_u64_pow2_no_overflow(shift as nat);
                lemma_u64_shl_is_mul(1, shift);
                lemma_pow2_adds(23, shift as nat);
                lemma_pow2_adds(24, shift as nat);
            }
            let unit: u64 = 1u64 << shift;
            let kept: u64 = wide / unit;
            let left: u64 = wide % unit;
            proof {
                lemma_fundamental_div_mod(wide as int, unit as int);
                lemma_div_is_ordered(pow2(top as nat) as int, wide as int, unit as int);
                lemma_div_by_multiple(pow2(23) as int, unit as int);
                lemma_mul_is_commutative(pow2(23) as int, unit as int);
                lemma_mul_is_commutative(pow2(24) as int, unit as int);
                lemma_multiply_divide_lt(wide as int, unit as int, pow2(24) as int);
                lemma_pow2_strictly_increases(shift as nat, 41);
                lemma_pow2_unfold(41);
            }
            let up: u32 = if 2 * left > unit || (2 * left == unit && kept % 2 == 1) {
                1
            } else {
                0
            };
            Value { bits: (127 + top) * HIDDEN_BIT + (kept - HIDDEN_BIT as u64) as u32 + up }
        }
    }
}

} // verus!
