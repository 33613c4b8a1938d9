//! IEEE 754 binary64 numbers, held by their bit patterns.
//!
//! A pattern has a sign bit, eleven bits of biased exponent and fifty-two bits
//! of fraction. Every pattern that is not a NaN stands for a multiple of
//! 2^-1074 (or for an infinity); `scaled_value` is that multiple, an exact
//! integer. The order of two numbers is the order of their scaled values and
//! the floor of a number is its scaled value over 2^1074, rounded down; the
//! executable comparison and floor are proved to compute both from the
//! patterns alone.
use vstd::prelude::*;
use vstd::arithmetic::div_mod::{
    lemma_basic_div, lemma_div_is_ordered, lemma_div_multiples_vanish_quotient,
    lemma_fundamental_div_mod, lemma_fundamental_div_mod_converse_div, lemma_mod_bound,
};
use vstd::arithmetic::power2::{
    lemma2_to64, lemma2_to64_rest, lemma_pow2_adds, lemma_pow2_pos, lemma_pow2_strictly_increases,
    lemma_pow2_unfold, pow2,
};
use vstd::bits::{lemma_u64_shl_is_mul, lemma_u64_shr_is_div};

verus! {

/// The pattern in which only the sign bit is set.
pub const SIGN_BIT: u64 = 0x8000_0000_0000_0000;

/// The pattern of positive infinity: all exponent bits set, no fraction bit.
pub const INFINITY_BITS: u64 = 0x7ff0_0000_0000_0000;

/// The number of fraction values, 2^52.
pub const FRACTION_SPAN: u64 = 0x0010_0000_0000_0000;

/// The biased exponent of 1.0.
pub const EXPONENT_BIAS: u64 = 1023;

/// The number of fraction bits.
pub const FRACTION_BITS: u64 = 52;

/// A binary64 number. Two values are `==` when their patterns agree, which is
/// finer than numeric equality: it tells the two zeros apart.
#[derive(Clone, Copy, Debug, PartialEq, Eq, Structural)]
pub struct Binary64 {
    pub bits: u64,
}

impl Binary64 {
    /// Whether the sign bit is set.
    pub open spec fn is_negative(self) -> bool {
        self.bits >= SIGN_BIT
    }

    /// The pattern without its sign bit.
    pub open spec fn abs_bits(self) -> nat {
        if self.bits >= SIGN_BIT {
            (self.bits - SIGN_BIT) as nat
        } else {
            self.bits as nat
        }
    }

    /// The eleven exponent bits, read as a number.
    pub open spec fn biased_exponent(self) -> nat {
        self.abs_bits() / (FRACTION_SPAN as nat)
    }

    /// The fifty-two fraction bits, read as a number.
    pub open spec fn fraction(self) -> nat {
        self.abs_bits() % (FRACTION_SPAN as nat)
    }

    /// Whether the pattern is a NaN: the exponent is all ones and the
    /// fraction is not zero.
    pub open spec fn spec_is_nan(self) -> bool {
        self.biased_exponent() == 2047 && self.fraction() != 0
    }

    /// The absolute value in units of 2^-1074. Subnormal numbers have the
    /// biased exponent 0 and no leading one. An infinity is given the value
    /// that its pattern would have as a finite number, which is above every
    /// finite magnitude.
    pub open spec fn magnitude(self) -> nat {
        if self.biased_exponent() == 0 {
            self.fraction()
        } else {
            (FRACTION_SPAN + self.fraction()) as nat * pow2((self.biased_exponent() - 1) as nat)
        }
    }

    /// The value in units of 2^-1074. Both zeros have the value 0.
    pub open spec fn scaled_value(self) -> int {
        if self.is_negative() {
            -(self.magnitude() as int)
        } else {
            self.magnitude() as int
        }
    }

    /// Numeric "less than": neither side is a NaN and the left value is the
    /// smaller one.
    pub open spec fn spec_lt(self, other: Binary64) -> bool {
        &&& !self.spec_is_nan()
        &&& !other.spec_is_nan()
        &&& self.scaled_value() < other.scaled_value()
    }

    /// The largest integer that is not above the number; 0 for a NaN. The
    /// value is the scaled value over 2^1074, and the quotient of integers
    /// rounds down.
    pub open spec fn spec_floor(self) -> int {
        if self.spec_is_nan() {
            0
        } else {
            self.scaled_value() / (pow2(1074) as int)
        }
    }

    /// Whether the number is one of the two zeros.
    pub open spec fn spec_is_zero(self) -> bool {
        !self.spec_is_nan() && self.scaled_value() == 0
    }

    /// The number with the given pattern.
    pub fn from_bits(bits: u64) -> (number: Binary64)
        ensures
            number.bits == bits,
    {
        Binary64 { bits }
    }

    /// The pattern of the number.
    pub fn to_bits(self) -> (bits: u64)
        ensures
            bits == self.bits,
    {
        self.bits
    }

    fn magnitude_bits(self) -> (abs: u64)
        ensures
            abs == self.abs_bits(),
    {
        if self.bits >= SIGN_BIT {
            self.bits - SIGN_BIT
        } else {
            self.bits
        }
    }

    /// Whether the number is a NaN.
    pub fn is_nan(self) -> (nan: bool)
        ensures
            nan == self.spec_is_nan(),
    {
        self.magnitude_bits() > INFINITY_BITS
    }

    /// Whether the number is positive or negative zero.
    pub fn is_zero(self) -> (zero: bool)
        ensures
            zero == self.spec_is_zero(),
    {
        proof {
            lemma_magnitude_zero(self);
        }
        self.magnitude_bits() == 0
    }

    /// The largest integer that is not above the number, as far as an `i64`
    /// can hold it: a number beyond the range gives the nearest end of the
    /// range, an infinity too, and a NaN gives 0.
    pub fn floor_to_i64(self) -> (floor: i64)
        ensures
            floor == saturate_i64(self.spec_floor()),
    {
        let abs = self.magnitude_bits();
        let negative = self.bits >= SIGN_BIT;
        if abs > INFINITY_BITS {
            return 0;
        }
        let exponent = abs / FRACTION_SPAN;
        let fraction = abs % FRACTION_SPAN;
        if exponent < EXPONENT_BIAS {
            proof {
                lemma_floor_below_one(self);
            }
            return if negative && abs != 0 {
                -1
            } else {
                0
            };
        }
        let significand = FRACTION_SPAN + fraction;
        if exponent >= EXPONENT_BIAS + FRACTION_BITS {
            let shift = exponent - (EXPONENT_BIAS + FRACTION_BITS);
            proof {
                lemma_floor_of_integer(self);
            }
            if shift >= 11 {
                proof {
                    lemma2_to64();
                    if shift > 11 {
                        lemma_pow2_strictly_increases(11, shift as nat);
                    }
                    assert(significand * pow2(shift as nat) >= 0x8000_0000_0000_0000)
                        by (nonlinear_arith)
                        requires
                            significand >= 0x0010_0000_0000_0000,
                            pow2(shift as nat) >= 0x800,
                    ;
                }
                return if negative {
                    i64::MIN
                } else {
                    i64::MAX
                };
            }
            proof {
                lemma2_to64();
                if shift < 10 {
                    lemma_pow2_strictly_increases(shift as nat, 10);
                }
                assert(significand * pow2(shift as nat) < 0x8000_0000_0000_0000)
                    by (nonlinear_arith)
                    requires
                        significand < 0x0020_0000_0000_0000,
                        pow2(shift as nat) <= 0x400,
                ;
                lemma_u64_shl_is_mul(significand, shift);
            }
            let whole = significand << shift;
            return if negative {
                -(whole as i64)
            } else {
                whole as i64
            };
        }
        let shift = EXPONENT_BIAS + FRACTION_BITS - exponent;
        let whole = significand >> shift;
        proof {
            lemma_floor_of_fraction(self);
            lemma_u64_shr_is_div(significand, shift);
            lemma_pow2_pos(shift as nat);
            lemma_fundamental_div_mod(significand as int, pow2(shift as nat) as int);
            assert(whole * pow2(shift as nat) <= significand) by (nonlinear_arith)
                requires
                    significand == pow2(shift as nat) * whole + (significand as int) % (pow2(
                        shift as nat,
                    ) as int),
                    (significand as int) % (pow2(shift as nat) as int) >= 0,
            ;
            lemma_u64_shl_is_mul(whole, shift);
            assert(pow2(shift as nat) * whole == whole * pow2(shift as nat)) by (nonlinear_arith);
        }
        if negative {
            if (whole << shift) != significand {
                -(whole as i64) - 1
            } else {
                -(whole as i64)
            }
        } else {
            whole as i64
        }
    }

    /// Numeric "less than", as IEEE 754 defines it: false when either side
    /// is a NaN, and the two zeros are equal.
    pub fn lt(self, other: Binary64) -> (below: bool)
        ensures
            below == self.spec_lt(other),
    {
        if self.is_nan() || other.is_nan() {
            return false;
        }
        let a = self.magnitude_bits();
        let b = other.magnitude_bits();
        proof {
            lemma_magnitude_order(self, other);
            lemma_magnitude_order(other, self);
            lemma_magnitude_zero(self);
            lemma_magnitude_zero(other);
        }
        if self.bits >= SIGN_BIT {
            if other.bits >= SIGN_BIT {
                b < a
            } else {
                a != 0 || b != 0
            }
        } else {
            if other.bits >= SIGN_BIT {
                false
            } else {
                a < b
            }
        }
    }
}

/// The integer nearest to `i` that an `i64` can hold.
pub open spec fn saturate_i64(i: int) -> i64 {
    if i < i64::MIN {
        i64::MIN
    } else if i > i64::MAX {
        i64::MAX
    } else {
        i as i64
    }
}

/// A number whose exponent is below the bias is smaller than one in
/// magnitude: it rounds down to 0, or to -1 where it is below zero.
proof fn lemma_floor_below_one(x: Binary64)
    requires
        !x.spec_is_nan(),
        x.biased_exponent() < EXPONENT_BIAS,
    ensures
        x.is_negative() && x.abs_bits() != 0 ==> x.spec_floor() == -1,
        !(x.is_negative() && x.abs_bits() != 0) ==> x.spec_floor() == 0,
{
    let e = x.biased_exponent();
    let f = x.fraction() as int;
    let unit = pow2(1074) as int;
    let mag = x.magnitude() as int;
    lemma2_to64_rest();
    lemma_pow2_strictly_increases(53, 1074);
    lemma_magnitude_zero(x);
    assert(mag < unit) by {
        if e != 0 {
            let p = pow2((e - 1) as nat) as int;
            lemma_pow2_pos((e - 1) as nat);
            lemma_pow2_adds(53, (e - 1) as nat);
            if 53 + (e - 1) < 1074 {
                lemma_pow2_strictly_increases((53 + (e - 1)) as nat, 1074);
            }
            assert((FRACTION_SPAN + f) * p < pow2(53) * p) by (nonlinear_arith)
                requires
                    FRACTION_SPAN + f < pow2(53),
                    p > 0,
            ;
        }
    }
    if x.is_negative() && x.abs_bits() != 0 {
        lemma_fundamental_div_mod_converse_div(-mag, unit, -1, unit - mag);
    } else {
        lemma_basic_div(mag, unit);
    }
}

/// A number whose exponent is at least the bias plus the fraction width is
/// an integer: its significand times a power of two.
proof fn lemma_floor_of_integer(x: Binary64)
    requires
        !x.spec_is_nan(),
        x.biased_exponent() >= EXPONENT_BIAS + FRACTION_BITS,
    ensures
        !x.is_negative() ==> x.spec_floor() == (FRACTION_SPAN + x.fraction()) * pow2(
            (x.biased_exponent() - 1075) as nat,
        ),
        x.is_negative() ==> x.spec_floor() == -((FRACTION_SPAN + x.fraction()) * pow2(
            (x.biased_exponent() - 1075) as nat,
        )),
{
    let e = x.biased_exponent();
    let m = (FRACTION_SPAN + x.fraction()) as int;
    let unit = pow2(1074) as int;
    let k = pow2((e - 1075) as nat) as int;
    lemma_pow2_pos(1074);
    lemma_pow2_pos((e - 1075) as nat);
    lemma_pow2_adds((e - 1075) as nat, 1074);
    assert(pow2((e - 1) as nat) == k * unit);
    assert(m * (k * unit) == (m * k) * unit + 0) by (nonlinear_arith);
    assert(-(m * (k * unit)) == (-(m * k)) * unit + 0) by (nonlinear_arith);
    lemma_fundamental_div_mod_converse_div(m * (k * unit), unit, m * k, 0);
    lemma_fundamental_div_mod_converse_div(-(m * (k * unit)), unit, -(m * k), 0);
}

/// A number between one and 2^52 in magnitude has its binary point inside
/// the significand: it rounds towards zero to the significand shifted
/// right, and a negative number rounds one further down where bits were
/// shifted out.
proof fn lemma_floor_of_fraction(x: Binary64)
    requires
        !x.spec_is_nan(),
        EXPONENT_BIAS <= x.biased_exponent() < EXPONENT_BIAS + FRACTION_BITS,
    ensures
        ({
            let m = (FRACTION_SPAN + x.fraction()) as int;
            let d = pow2((1075 - x.biased_exponent()) as nat) as int;
            &&& d > 0
            &&& !x.is_negative() ==> x.spec_floor() == m / d
            &&& x.is_negative() && m % d == 0 ==> x.spec_floor() == -(m / d)
            &&& x.is_negative() && m % d != 0 ==> x.spec_floor() == -(m / d) - 1
        }),
{
    let e = x.biased_exponent();
    let m = (FRACTION_SPAN + x.fraction()) as int;
    let unit = pow2(1074) as int;
    let p = pow2((e - 1) as nat) as int;
    let d = pow2((1075 - e) as nat) as int;
    lemma_pow2_pos((e - 1) as nat);
    lemma_pow2_pos((1075 - e) as nat);
    lemma_pow2_adds((e - 1) as nat, (1075 - e) as nat);
    assert(unit == p * d);
    lemma_div_multiples_vanish_quotient(p, m, d);
    assert(m * p == p * m) by (nonlinear_arith);
    assert((m * p) / unit == m / d);
    if x.is_negative() {
        lemma_fundamental_div_mod(m, d);
        let q = m / d;
        let r = m % d;
        if r == 0 {
            assert(-(m * p) == (-q) * (p * d) + 0) by (nonlinear_arith)
                requires
                    m == d * q + r,
                    r == 0,
            ;
            lemma_fundamental_div_mod_converse_div(-(m * p), unit, -q, 0);
        } else {
            assert(-(m * p) == (-q - 1) * (p * d) + (d - r) * p) by (nonlinear_arith)
                requires
                    m == d * q + r,
            ;
            assert(0 <= (d - r) * p < p * d) by (nonlinear_arith)
                requires
                    0 < r < d,
                    p > 0,
            ;
            lemma_fundamental_div_mod_converse_div(-(m * p), unit, -q - 1, (d - r) * p);
        }
    }
}

/// "Less than" is a strict order, and it is total on the numbers that are
/// not NaN once the two zeros are taken as one.
pub proof fn lemma_lt_is_a_strict_order(a: Binary64, b: Binary64, c: Binary64)
    ensures
        !a.spec_lt(a),
        a.spec_lt(b) ==> !b.spec_lt(a),
        a.spec_lt(b) && b.spec_lt(c) ==> a.spec_lt(c),
        !a.spec_is_nan() && !b.spec_is_nan() ==> a.spec_lt(b) || b.spec_lt(a) || a.scaled_value()
            == b.scaled_value(),
{
}

/// The floor of a number is the one integer `n` with `n <= x < n + 1`,
/// here in units of 2^-1074, and a smaller number has no larger floor.
pub proof fn lemma_floor_brackets_the_value(x: Binary64, y: Binary64)
    ensures
        !x.spec_is_nan() ==> x.spec_floor() * pow2(1074) <= x.scaled_value() < (x.spec_floor() + 1)
            * pow2(1074),
        x.spec_lt(y) ==> x.spec_floor() <= y.spec_floor(),
{
    let unit = pow2(1074) as int;
    lemma_pow2_pos(1074);
    if !x.spec_is_nan() {
        let v = x.scaled_value();
        lemma_fundamental_div_mod(v, unit);
        lemma_mod_bound(v, unit);
        assert((v / unit) * unit == unit * (v / unit)) by (nonlinear_arith);
        assert((v / unit + 1) * unit == unit * (v / unit) + unit) by (nonlinear_arith);
    }
    if x.spec_lt(y) {
        lemma_div_is_ordered(x.scaled_value(), y.scaled_value(), unit);
    }
}

/// Only the all-zero pattern (sign aside) has the magnitude zero.
pub proof fn lemma_magnitude_zero(x: Binary64)
    ensures
        x.magnitude() == 0 <==> x.abs_bits() == 0,
{
    let e = x.biased_exponent();
    let f = x.fraction();
    if e != 0 {
        let p = pow2((e - 1) as nat);
        lemma_pow2_pos((e - 1) as nat);
        assert((FRACTION_SPAN + f) * p > 0) by (nonlinear_arith)
            requires
                p > 0,
                f >= 0,
        ;
    }
}

/// The magnitude grows strictly with the pattern: a larger exponent outweighs
/// any fraction, and within one exponent the fraction decides.
pub proof fn lemma_magnitude_order(x: Binary64, y: Binary64)
    ensures
        x.abs_bits() < y.abs_bits() ==> x.magnitude() < y.magnitude(),
        x.abs_bits() == y.abs_bits() ==> x.magnitude() == y.magnitude(),
{
    if x.abs_bits() < y.abs_bits() {
        let span = FRACTION_SPAN as int;
        let ex = x.biased_exponent();
        let fx = x.fraction();
        let ey = y.biased_exponent();
        let fy = y.fraction();
        assert(ex <= ey);
        if ex == ey {
            assert(fx < fy);
            if ex != 0 {
                let p = pow2((ex - 1) as nat);
                lemma_pow2_pos((ex - 1) as nat);
                assert((span + fx) * p < (span + fy) * p) by (nonlinear_arith)
                    requires
                        p > 0,
                        fx < fy,
                ;
            }
        } else {
            let q = pow2((ey - 1) as nat);
            lemma_pow2_pos((ey - 1) as nat);
            assert(span * q <= (span + fy) * q) by (nonlinear_arith)
                requires
                    q > 0,
                    fy >= 0,
            ;
            if ex == 0 {
                assert(span * 1 <= span * q) by (nonlinear_arith)
                    requires
                        q >= 1,
                        span > 0,
                ;
            } else {
                let p = pow2((ex - 1) as nat);
                lemma_pow2_pos((ex - 1) as nat);
                lemma_pow2_unfold(ex);
                if ex < ey - 1 {
                    lemma_pow2_strictly_increases(ex, (ey - 1) as nat);
                }
                assert(pow2(ex) <= q);
                assert((span + fx) * p < span * (2 * p)) by (nonlinear_arith)
                    requires
                        p > 0,
                        fx < span,
                ;
                assert(span * (2 * p) <= span * q) by (nonlinear_arith)
                    requires
                        2 * p <= q,
                        span > 0,
                ;
            }
        }
    }
}

} // verus!
