//! Single-precision values as the rasterizer sees them: bit patterns with
//! an exact integer reading.
//!
//! Every finite binary32 value is a whole multiple of 2^-149. `units` is
//! that multiple, so order and truncation of values become order and
//! division of integers.

use vstd::prelude::*;
use vstd::arithmetic::div_mod::{
    lemma_basic_div,
    lemma_div_is_ordered,
    lemma_div_is_ordered_by_denominator,
    lemma_div_multiples_vanish,
    lemma_div_multiples_vanish_quotient,
};
use vstd::arithmetic::mul::{lemma_mul_inequality, lemma_mul_strict_inequality};
use vstd::arithmetic::power2::{
    lemma2_to64,
    lemma_pow2_adds,
    lemma_pow2_pos,
    lemma_pow2_strictly_increases,
    pow2,
};
use vstd::bits::{lemma_u32_shl_is_mul, lemma_u32_shr_is_div};

verus! {

/// The bit that holds the sign.
pub const SIGN_BIT: u32 = 0x8000_0000;

/// Number of distinct fraction fields: 2^23.
pub const FRACTION_SPAN: u32 = 0x80_0000;

/// The exponent field of infinities and NaNs.
pub const EXPONENT_MAX: u32 = 0xff;

/// An IEEE-754 binary32 value, held as its bit pattern.
#[derive(Clone, Copy, Debug, PartialEq, Eq, Structural)]
pub struct Scalar {
    pub bits: u32,
}

/// How many units of 2^-149 make up the whole number `n`.
pub open spec fn whole(n: int) -> int {
    n * pow2(149)
}

impl Scalar {
    /// The sign bit is set.
    pub open spec fn negative(self) -> bool {
        self.bits >= SIGN_BIT
    }

    /// The biased exponent field.
    pub open spec fn exponent(self) -> nat {
        ((self.bits / FRACTION_SPAN) % 0x100) as nat
    }

    /// The fraction field.
    pub open spec fn fraction(self) -> nat {
        (self.bits % FRACTION_SPAN) as nat
    }

    /// Exponent and fraction together: the pattern without its sign.
    pub open spec fn body(self) -> nat {
        (self.bits % SIGN_BIT) as nat
    }

    /// The pattern is not a number.
    pub open spec fn nan(self) -> bool {
        self.exponent() == EXPONENT_MAX && self.fraction() != 0
    }

    /// The absolute value in units of 2^-149. Infinity reads as 2^277,
    /// above every finite value.
    pub open spec fn magnitude(self) -> nat {
        if self.exponent() == 0 {
            self.fraction()
        } else {
            ((FRACTION_SPAN + self.fraction()) * pow2((self.exponent() - 1) as nat)) as nat
        }
    }

    /// The value in units of 2^-149; meaningful unless the pattern is a NaN.
    pub open spec fn units(self) -> int {
        if self.negative() {
            -(self.magnitude() as int)
        } else {
            self.magnitude() as int
        }
    }

    /// The value is exactly the whole number `n`.
    pub open spec fn is_whole(self, n: int) -> bool {
        !self.nan() && self.units() == whole(n)
    }

    /// The value is exactly one half.
    pub open spec fn is_half(self) -> bool {
        !self.nan() && 2 * self.units() == whole(1)
    }

    /// `self < other` as IEEE-754 orders values: false when either is a NaN,
    /// and the two zeros are equal.
    pub open spec fn lt(self, other: Scalar) -> bool {
        !self.nan() && !other.nan() && self.units() < other.units()
    }

    /// `self <= other` as IEEE-754 orders values.
    pub open spec fn le(self, other: Scalar) -> bool {
        !self.nan() && !other.nan() && self.units() <= other.units()
    }

    /// The value cut to an unsigned 32-bit integer: the fraction is dropped,
    /// values below zero and NaNs give 0, values past the range give the
    /// largest integer.
    pub open spec fn truncated(self) -> u32 {
        if self.nan() || self.units() < 0 {
            0
        } else if self.units() / (pow2(149) as int) > u32::MAX {
            u32::MAX
        } else {
            (self.units() / (pow2(149) as int)) as u32
        }
    }

    /// The scalar with the given bit pattern.
    pub fn from_bits(bits: u32) -> (s: Scalar)
        ensures
            s.bits == bits,
    {
        Scalar { bits }
    }

    /// The bit pattern.
    pub fn to_bits(self) -> (bits: u32)
        ensures
            bits == self.bits,
    {
        self.bits
    }

    /// Whether the pattern is a NaN.
    pub fn is_nan(self) -> (r: bool)
        ensures
            r == self.nan(),
    {
        self.bits % SIGN_BIT > EXPONENT_MAX * FRACTION_SPAN
    }

    /// Whether `self < other`.
    pub fn less_than(self, other: Scalar) -> (r: bool)
        ensures
            r == self.lt(other),
    {
        if self.is_nan() || other.is_nan() {
            return false;
        }
        let a: u32 = self.bits % SIGN_BIT;
        let b: u32 = other.bits % SIGN_BIT;
        proof {
            lemma_magnitude_follows_body(self, other);
            lemma_magnitude_follows_body(other, self);
            lemma_magnitude_follows_body(Scalar { bits: 0 }, self);
            lemma_magnitude_follows_body(Scalar { bits: 0 }, other);
        }
        if self.bits >= SIGN_BIT {
            if other.bits >= SIGN_BIT {
                b < a
            } else {
                a != 0 || b != 0
            }
        } else {
            other.bits < SIGN_BIT && a < b
        }
    }

    /// Whether `self <= other`.
    pub fn at_most(self, other: Scalar) -> (r: bool)
        ensures
            r == self.le(other),
    {
        if self.is_nan() || other.is_nan() {
            return false;
        }
        !other.less_than(self)
    }

    /// The value cut to an integer, as a cast to `u32` does it.
    pub fn truncate(self) -> (r: u32)
        ensures
            r == self.truncated(),
    {
        let e: u32 = (self.bits / FRACTION_SPAN) % 0x100;
        let f: u32 = self.bits % FRACTION_SPAN;
        if self.bits >= SIGN_BIT {
            proof {
                lemma_magnitude_follows_body(Scalar { bits: 0 }, self);
                lemma_whole_part_of_small(self);
            }
            0
        } else if e < 127 {
            proof {
                lemma_whole_part_of_small(self);
            }
            0
        } else if e >= 159 {
            proof {
                lemma_whole_part_of_huge(self);
            }
            if e == EXPONENT_MAX && f != 0 {
                0
            } else {
                u32::MAX
            }
        } else {
            let m: u32 = FRACTION_SPAN + f;
            if e <= 150 {
                proof {
                    lemma_whole_part_shifts_right(self);
                    lemma_u32_shr_is_div(m, (150 - e) as u32);
                    lemma_shift_fits(m, (150 - e) as nat);
                }
                m >> (150 - e)
            } else {
                proof {
                    lemma_whole_part_shifts_left(self);
                    lemma_u32_shl_is_mul(m, (e - 150) as u32);
                }
                m << (e - 150)
            }
        }
    }
}

/// The quotient of a significand by a power of two is not negative and not
/// above the significand.
proof fn lemma_shift_fits(m: u32, s: nat)
    requires
        m < 0x100_0000,
    ensures
        0 <= (m as int) / (pow2(s) as int) <= m,
{
    lemma_pow2_pos(s);
    lemma_div_is_ordered(0, m as int, pow2(s) as int);
    assert(0int / (pow2(s) as int) == 0) by {
        lemma_basic_div(0, pow2(s) as int);
    }
    lemma_div_is_ordered_by_denominator(m as int, 1, pow2(s) as int);
}

/// A larger body means a larger magnitude.
pub proof fn lemma_magnitude_follows_body(a: Scalar, b: Scalar)
    ensures
        a.body() < b.body() ==> a.magnitude() < b.magnitude(),
        a.body() == b.body() ==> a.magnitude() == b.magnitude(),
{
    let ea = a.exponent();
    let eb = b.exponent();
    let fa = a.fraction();
    let fb = b.fraction();
    assert(a.body() == ea * FRACTION_SPAN + fa);
    assert(b.body() == eb * FRACTION_SPAN + fb);
    if a.body() < b.body() {
        if ea == eb {
            if ea != 0 {
                let p = pow2((ea - 1) as nat) as int;
                lemma_pow2_pos((ea - 1) as nat);
                lemma_mul_strict_inequality(FRACTION_SPAN + fa, FRACTION_SPAN + fb, p);
            }
        } else {
            assert(ea < eb);
            let q = pow2((eb - 1) as nat) as int;
            lemma_pow2_pos((eb - 1) as nat);
            // The smallest magnitude with exponent `eb`.
            assert(FRACTION_SPAN * q <= (FRACTION_SPAN + fb) * q) by {
                lemma_mul_inequality(FRACTION_SPAN as int, FRACTION_SPAN + fb, q);
            }
            if ea == 0 {
                assert(FRACTION_SPAN * 1 <= FRACTION_SPAN * q) by {
                    lemma_mul_inequality(1, q, FRACTION_SPAN as int);
                    assert(q * FRACTION_SPAN == FRACTION_SPAN * q) by (nonlinear_arith);
                }
            } else {
                let p = pow2((ea - 1) as nat) as int;
                lemma_pow2_pos((ea - 1) as nat);
                // Magnitudes with exponent `ea` stay below 2^24 * p = 2^23 * 2p.
                assert((FRACTION_SPAN + fa) * p < (2 * FRACTION_SPAN) * p) by {
                    lemma_mul_strict_inequality(FRACTION_SPAN + fa, 2 * FRACTION_SPAN, p);
                }
                assert((2 * FRACTION_SPAN) * p == FRACTION_SPAN * (2 * p)) by (nonlinear_arith);
                assert(2 * p == pow2(ea)) by {
                    lemma_pow2_adds((ea - 1) as nat, 1);
                    lemma2_to64();
                }
                assert(pow2(ea) <= q) by {
                    if ea < eb - 1 {
                        lemma_pow2_strictly_increases(ea, (eb - 1) as nat);
                    }
                }
                assert(FRACTION_SPAN * (2 * p) <= FRACTION_SPAN * q) by {
                    lemma_mul_inequality(2 * p, q, FRACTION_SPAN as int);
                    assert((2 * p) * FRACTION_SPAN == FRACTION_SPAN * (2 * p)) by (nonlinear_arith);
                    assert(q * FRACTION_SPAN == FRACTION_SPAN * q) by (nonlinear_arith);
                }
            }
        }
    }
}

/// A power of two splits into two positive powers of two.
proof fn lemma_pow2_split(low: nat, high: nat)
    ensures
        pow2(low + high) == pow2(low) * pow2(high),
        pow2(low) > 0,
        pow2(high) > 0,
{
    lemma_pow2_adds(low, high);
    lemma_pow2_pos(low);
    lemma_pow2_pos(high);
}

/// Values below one, and values that are not positive, have no whole part
/// above zero.
proof fn lemma_whole_part_of_small(s: Scalar)
    requires
        s.negative() || s.exponent() < 127,
    ensures
        s.truncated() == 0,
{
    if !s.nan() && s.units() >= 0 {
        let unit = pow2(149) as int;
        lemma_pow2_pos(149);
        if s.negative() {
            assert(s.units() == 0);
        } else {
            let e = s.exponent();
            let f = s.fraction();
            if e == 0 {
                assert(f < pow2(149)) by {
                    lemma2_to64();
                    lemma_pow2_strictly_increases(23, 149);
                }
            } else {
                let p = pow2((e - 1) as nat) as int;
                lemma_pow2_pos((e - 1) as nat);
                assert((FRACTION_SPAN + f) * p < (2 * FRACTION_SPAN) * p) by {
                    lemma_mul_strict_inequality(FRACTION_SPAN + f, 2 * FRACTION_SPAN, p);
                }
                assert(2 * FRACTION_SPAN == pow2(24)) by {
                    lemma2_to64();
                }
                assert(pow2(24) * p == pow2((e + 23) as nat)) by {
                    lemma_pow2_adds(24, (e - 1) as nat);
                }
                assert(pow2((e + 23) as nat) <= unit) by {
                    if e + 23 < 149 {
                        lemma_pow2_strictly_increases((e + 23) as nat, 149);
                    }
                }
            }
        }
        lemma_basic_div(s.units(), unit);
    }
}

/// Values of 2^32 and more, infinity among them, pass the integer range.
proof fn lemma_whole_part_of_huge(s: Scalar)
    requires
        !s.negative(),
        s.exponent() >= 159,
    ensures
        s.truncated() == if s.nan() {
            0
        } else {
            u32::MAX
        },
{
    if !s.nan() {
        let unit = pow2(149) as int;
        lemma_pow2_pos(149);
        let e = s.exponent();
        let f = s.fraction();
        let p = pow2((e - 1) as nat) as int;
        lemma_pow2_pos((e - 1) as nat);
        assert(FRACTION_SPAN * p <= (FRACTION_SPAN + f) * p) by {
            lemma_mul_inequality(FRACTION_SPAN as int, FRACTION_SPAN + f, p);
        }
        assert(FRACTION_SPAN == pow2(23)) by {
            lemma2_to64();
        }
        assert(pow2(23) * p == pow2((e + 22) as nat)) by {
            lemma_pow2_adds(23, (e - 1) as nat);
        }
        assert(pow2(181) <= pow2((e + 22) as nat)) by {
            if 181 < e + 22 {
                lemma_pow2_strictly_increases(181, (e + 22) as nat);
            }
        }
        assert(pow2(181) == unit * 0x1_0000_0000) by {
            lemma_pow2_adds(149, 32);
            lemma2_to64();
        }
        assert((unit * 0x1_0000_0000) / unit == 0x1_0000_0000) by {
            lemma_div_multiples_vanish(0x1_0000_0000, unit);
        }
        lemma_div_is_ordered(unit * 0x1_0000_0000, s.units(), unit);
    }
}

/// Between one and 2^24 the whole part is the significand shifted right.
proof fn lemma_whole_part_shifts_right(s: Scalar)
    requires
        !s.negative(),
        127 <= s.exponent() <= 150,
    ensures
        s.units() / (pow2(149) as int) == (FRACTION_SPAN + s.fraction()) as int / (pow2(
            (150 - s.exponent()) as nat,
        ) as int),
{
    let e = s.exponent();
    let m = (FRACTION_SPAN + s.fraction()) as int;
    let p = pow2((e - 1) as nat) as int;
    let q = pow2((150 - e) as nat) as int;
    lemma_pow2_split((e - 1) as nat, (150 - e) as nat);
    assert(pow2(149) == p * q);
    lemma_div_multiples_vanish_quotient(p, m, q);
    assert(m * p == p * m) by (nonlinear_arith);
}

/// From 2^24 up to the integer range the whole part is the significand
/// shifted left, and fits 32 bits.
proof fn lemma_whole_part_shifts_left(s: Scalar)
    requires
        !s.negative(),
        150 < s.exponent() < 159,
    ensures
        s.units() / (pow2(149) as int) == (FRACTION_SPAN + s.fraction()) * pow2(
            (s.exponent() - 150) as nat,
        ),
        (FRACTION_SPAN + s.fraction()) * pow2((s.exponent() - 150) as nat) <= u32::MAX,
{
    let e = s.exponent();
    let m = (FRACTION_SPAN + s.fraction()) as int;
    let unit = pow2(149) as int;
    let k = pow2((e - 150) as nat) as int;
    lemma_pow2_split(149, (e - 150) as nat);
    assert(pow2((e - 1) as nat) == unit * k);
    assert(m * (unit * k) == unit * (m * k)) by (nonlinear_arith);
    lemma_div_multiples_vanish(m * k, unit);
    assert(k <= 0x100) by {
        lemma2_to64();
        if e - 150 < 8 {
            lemma_pow2_strictly_increases((e - 150) as nat, 8);
        }
    }
    assert(m * k <= 0xff_ffff * 0x100) by (nonlinear_arith)
        requires
            0 <= m <= 0xff_ffff,
            0 < k <= 0x100,
    ;
}

/// How a positive pattern reads: its fields, and its value as significand
/// times a power of two.
pub proof fn lemma_units_of_pattern(s: Scalar, e: nat, f: nat)
    requires
        s.bits == e * FRACTION_SPAN + f,
        1 <= e < EXPONENT_MAX,
        f < FRACTION_SPAN,
    ensures
        !s.nan(),
        !s.negative(),
        s.units() == (FRACTION_SPAN + f) * pow2((e - 1) as nat),
{
    assert(s.exponent() == e);
    assert(s.fraction() == f);
}

/// A positive pattern whose significand is `n * 2^k` and whose exponent
/// field is `150 - k` holds the whole number `n`.
pub proof fn lemma_whole_pattern(s: Scalar, n: nat, k: nat)
    requires
        k <= 23,
        FRACTION_SPAN <= n * pow2(k) < 2 * FRACTION_SPAN,
        s.bits == (150 - k) * FRACTION_SPAN + (n * pow2(k) - FRACTION_SPAN),
    ensures
        s.is_whole(n as int),
        !s.negative(),
{
    let e = (150 - k) as nat;
    let f = (n * pow2(k) - FRACTION_SPAN) as nat;
    lemma_units_of_pattern(s, e, f);
    lemma_pow2_adds(k, (149 - k) as nat);
    assert((n * pow2(k)) * pow2((149 - k) as nat) == n * (pow2(k) * pow2((149 - k) as nat)))
        by (nonlinear_arith);
}

/// The all-zero pattern is zero.
pub proof fn lemma_zero_pattern()
    ensures
        (Scalar { bits: 0 }).is_whole(0),
        !(Scalar { bits: 0 }).negative(),
{
    assert(0 * pow2(149) == 0) by (nonlinear_arith);
}

/// Setting the sign bit of a pattern negates its value.
pub proof fn lemma_negated_pattern(s: Scalar, t: Scalar)
    requires
        !t.negative(),
        s.bits == t.bits + SIGN_BIT,
    ensures
        s.negative(),
        s.nan() == t.nan(),
        s.units() == -t.units(),
{
    assert(s.exponent() == t.exponent());
    assert(s.fraction() == t.fraction());
}

/// Truncation leaves a whole number in range as it is.
pub proof fn lemma_truncation_of_whole(s: Scalar, n: int)
    requires
        s.is_whole(n),
        0 <= n <= u32::MAX,
    ensures
        s.truncated() == n,
{
    lemma_pow2_pos(149);
    let unit = pow2(149) as int;
    assert(n * unit >= 0) by (nonlinear_arith)
        requires
            n >= 0,
            unit > 0,
    ;
    assert(n * unit == unit * n) by (nonlinear_arith);
    lemma_div_multiples_vanish(n, unit);
}

/// In the truncation of a value that is at least zero and below the whole
/// number `n`, nothing is cut but the fraction, and the result is below `n`.
pub proof fn lemma_truncation_in_range(s: Scalar, zero: Scalar, limit: Scalar, n: int)
    requires
        zero.is_whole(0),
        limit.is_whole(n),
        0 <= n <= u32::MAX,
        zero.le(s),
        s.lt(limit),
    ensures
        s.truncated() == s.units() / (pow2(149) as int),
        0 <= s.truncated() < n,
        whole(s.truncated() as int) <= s.units() < whole(s.truncated() + 1),
{
    let unit = pow2(149) as int;
    lemma_pow2_pos(149);
    let u = s.units();
    assert(0 * unit == 0) by (nonlinear_arith);
    assert(0 <= u < n * unit);
    let q = u / unit;
    assert(0 <= q < n && q * unit <= u < (q + 1) * unit) by (nonlinear_arith)
        requires
            0 <= u < n * unit,
            unit > 0,
            q == u / unit,
    ;
}

} // verus!
