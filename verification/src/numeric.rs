//! Binary floating-point numbers held as their IEEE-754 bit patterns.
//!
//! A `Double` is a binary64 number and a `Single` a binary32 number. What can
//! be read off the bit pattern exactly is computed here: the sign, the order,
//! and the conversions to and from integers. Operations that round are left
//! to the float unit.

use vstd::prelude::*;
use vstd::arithmetic::power2::*;
use vstd::arithmetic::div_mod::*;

verus! {

/// The bit that holds the sign of a `Double`.
pub const SIGN_BIT: u64 = 0x8000_0000_0000_0000;

/// The weight of the lowest bit of the exponent field of a `Double`: 2^52.
pub const HIDDEN_BIT: u64 = 0x0010_0000_0000_0000;

/// The bit pattern of positive infinity.
pub const INFINITY_BITS: u64 = 0x7ff0_0000_0000_0000;

/// A binary64 floating-point number, by its bit pattern.
#[derive(Clone, Copy, Debug, PartialEq, Eq, Structural)]
pub struct Double {
    pub bits: u64,
}

/// A binary32 floating-point number, by its bit pattern.
#[derive(Clone, Copy, Debug, PartialEq, Eq, Structural)]
pub struct Single {
    pub bits: u32,
}

/// `v` limited to the range of a 32-bit signed integer.
pub open spec fn clamp_i32(v: int) -> int {
    if v < i32::MIN {
        i32::MIN as int
    } else if v > i32::MAX {
        i32::MAX as int
    } else {
        v
    }
}

/// Position of the highest set bit of `a`, counted from zero; zero for `a < 2`.
pub open spec fn top_bit(a: nat) -> nat
    decreases a,
{
    if a < 2 {
        0
    } else {
        1 + top_bit(a / 2)
    }
}

/// A positive number is at least 2 to the power of its top bit, and below
/// twice that.
pub proof fn lemma_top_bit_bounds(a: nat)
    requires
        a > 0,
    ensures
        pow2(top_bit(a)) <= a < 2 * pow2(top_bit(a)),
    decreases a,
{
    reveal(pow2);
    lemma2_to64();
    if a >= 2 {
        lemma_top_bit_bounds(a / 2);
        lemma_pow2_unfold(top_bit(a));
    }
}

/// A positive number below 2 to the power `n` has its top bit below `n`.
pub proof fn lemma_top_bit_below(a: nat, n: nat)
    requires
        0 < a < pow2(n),
    ensures
        top_bit(a) < n,
{
    lemma_top_bit_bounds(a);
    if top_bit(a) >= n {
        if top_bit(a) > n {
            lemma_pow2_strictly_increases(n, top_bit(a));
        }
    }
}

/// 2 to the power `n`.
pub fn pow2_u64(n: u64) -> (r: u64)
    requires
        n < 64,
    ensures
        r == pow2(n as nat),
{
    let mut r: u64 = 1;
    let mut i: u64 = 0;
    proof {
        lemma2_to64();
    }
    while i < n
        invariant
            i <= n < 64,
            r == pow2(i as nat),
        decreases n - i,
    {
        proof {
            lemma_pow2_unfold((i + 1) as nat);
            lemma2_to64_rest();
            if i + 1 < 63 {
                lemma_pow2_strictly_increases((i + 1) as nat, 63);
            }
        }
        r = r * 2;
        i = i + 1;
    }
    r
}

/// Position of the highest set bit of `a`.
pub fn top_bit_u64(a: u64) -> (k: u64)
    ensures
        k == top_bit(a as nat),
        k < 64,
{
    let mut k: u64 = 0;
    let mut r: u64 = a;
    proof {
        lemma2_to64();
        lemma2_to64_rest();
    }
    while r >= 2
        invariant
            top_bit(a as nat) == k + top_bit(r as nat),
            r > 0 ==> r * pow2(k as nat) <= a,
            k < 64,
        decreases r,
    {
        proof {
            let p = pow2(k as nat);
            let h = (r / 2) as nat;
            lemma2_to64();
            lemma2_to64_rest();
            lemma_pow2_unfold((k + 1) as nat);
            lemma_pow2_pos(k as nat);
            assert(h * (2 * p) <= r * p) by (nonlinear_arith)
                requires
                    h == r / 2,
                    p > 0,
            ;
            assert(h * (2 * p) >= 2 * p) by (nonlinear_arith)
                requires
                    h >= 1,
                    p > 0,
            ;
            assert(pow2((k + 1) as nat) <= a);
            if k + 1 > 64 {
                lemma_pow2_strictly_increases(64, (k + 1) as nat);
            }
            assert(pow2(64) == 0x1_0000_0000_0000_0000);
        }
        r = r / 2;
        k = k + 1;
    }
    k
}

impl Double {
    /// Whether the sign bit is set.
    pub open spec fn negative(self) -> bool {
        self.bits >= SIGN_BIT
    }

    /// The bit pattern without the sign bit.
    pub open spec fn magnitude(self) -> nat {
        (self.bits % SIGN_BIT) as nat
    }

    /// Whether the bits stand for no number.
    pub open spec fn is_nan(self) -> bool {
        self.magnitude() > INFINITY_BITS
    }

    /// Whether the number is an infinity.
    pub open spec fn is_infinite(self) -> bool {
        self.magnitude() == INFINITY_BITS
    }

    /// Positive or negative zero.
    pub open spec fn is_zero(self) -> bool {
        self.magnitude() == 0
    }

    /// The exponent field, 0 to 2047.
    pub open spec fn exponent(self) -> nat {
        self.magnitude() / (HIDDEN_BIT as nat)
    }

    /// The fraction field, below 2^52.
    pub open spec fn fraction(self) -> nat {
        self.magnitude() % (HIDDEN_BIT as nat)
    }

    /// The significand of a finite number as an integer: the absolute value
    /// is `significand() * 2^scale()`.
    pub open spec fn significand(self) -> nat {
        if self.exponent() == 0 {
            self.fraction()
        } else {
            HIDDEN_BIT as nat + self.fraction()
        }
    }

    /// The power of two that the significand of a finite number is scaled by.
    pub open spec fn scale(self) -> int {
        if self.exponent() == 0 {
            -1074
        } else {
            self.exponent() - 1075
        }
    }

    /// The absolute value of a finite number, rounded down to an integer.
    pub open spec fn whole_part(self) -> nat {
        if self.scale() >= 0 {
            self.significand() * pow2(self.scale() as nat)
        } else {
            self.significand() / pow2((-self.scale()) as nat)
        }
    }

    /// Whether a finite number is not an integer.
    pub open spec fn has_fraction(self) -> bool {
        self.scale() < 0 && self.significand() % pow2((-self.scale()) as nat) != 0
    }

    /// Whether the part of a finite number behind the point is a half or more.
    pub open spec fn half_or_more(self) -> bool {
        self.scale() < 0 && 2 * (self.significand() % pow2((-self.scale()) as nat)) >= pow2(
            (-self.scale()) as nat,
        )
    }

    /// `v` with the sign of the number.
    pub open spec fn with_sign(self, v: int) -> int {
        if self.negative() {
            -v
        } else {
            v
        }
    }

    /// The number rounded toward zero and limited to 32 bits; zero for NaN.
    pub open spec fn truncated(self) -> int {
        if self.is_nan() {
            0
        } else if self.is_infinite() {
            clamp_i32(self.with_sign(0x1_0000_0000))
        } else {
            clamp_i32(self.with_sign(self.whole_part() as int))
        }
    }

    /// The number rounded toward zero and limited to unsigned 64 bits; zero
    /// for NaN and for negative numbers.
    pub open spec fn truncated_u64(self) -> int {
        if self.is_nan() || self.negative() {
            0
        } else if self.is_infinite() || self.whole_part() > u64::MAX {
            u64::MAX as int
        } else {
            self.whole_part() as int
        }
    }

    /// The number rounded down and limited to 32 bits; zero for NaN.
    pub open spec fn floored(self) -> int {
        if self.is_nan() {
            0
        } else if self.is_infinite() {
            clamp_i32(self.with_sign(0x1_0000_0000))
        } else if self.negative() && self.has_fraction() {
            clamp_i32(-(self.whole_part() as int) - 1)
        } else {
            clamp_i32(self.with_sign(self.whole_part() as int))
        }
    }

    /// The number rounded to the nearest integer, halves away from zero, and
    /// limited to 32 bits; zero for NaN.
    pub open spec fn rounded(self) -> int {
        if self.is_nan() {
            0
        } else if self.is_infinite() {
            clamp_i32(self.with_sign(0x1_0000_0000))
        } else if self.half_or_more() {
            clamp_i32(self.with_sign(self.whole_part() as int + 1))
        } else {
            clamp_i32(self.with_sign(self.whole_part() as int))
        }
    }

    /// A key that orders the numbers that are not NaN as their values are
    /// ordered; both zeros have key 0.
    pub open spec fn order_key(self) -> int {
        self.with_sign(self.magnitude() as int)
    }

    /// `self < other`; false where either is NaN.
    pub open spec fn lt_spec(self, other: Double) -> bool {
        !self.is_nan() && !other.is_nan() && self.order_key() < other.order_key()
    }

    /// `self <= other`; false where either is NaN.
    pub open spec fn le_spec(self, other: Double) -> bool {
        !self.is_nan() && !other.is_nan() && self.order_key() <= other.order_key()
    }

    /// `self == other` as numbers: false where either is NaN, true for the
    /// two zeros.
    pub open spec fn same_number(self, other: Double) -> bool {
        !self.is_nan() && !other.is_nan() && self.order_key() == other.order_key()
    }

    /// The number with the opposite sign.
    pub open spec fn negated(self) -> Double {
        Double {
            bits: if self.bits >= SIGN_BIT {
                (self.bits - SIGN_BIT) as u64
            } else {
                (self.bits + SIGN_BIT) as u64
            },
        }
    }

    /// The number without its sign.
    pub open spec fn absolute(self) -> Double {
        Double { bits: (self.bits % SIGN_BIT) as u64 }
    }

    /// The double that equals the integer `i`.
    pub open spec fn of_int(i: int) -> Double {
        if i == 0 {
            Double { bits: 0 }
        } else {
            let a = (if i < 0 {
                -i
            } else {
                i
            }) as nat;
            let k = top_bit(a);
            let sign = if i < 0 {
                SIGN_BIT as nat
            } else {
                0
            };
            Double {
                bits: (sign + (1023 + k) * (HIDDEN_BIT as nat) + (a * pow2((52 - k) as nat)
                    - HIDDEN_BIT as nat)) as u64,
            }
        }
    }

    /// The number with the given bit pattern.
    pub fn from_bits(bits: u64) -> (r: Double)
        ensures
            r.bits == bits,
    {
        Double { bits }
    }

    /// The bit pattern of the number.
    pub fn to_bits(self) -> (r: u64)
        ensures
            r == self.bits,
    {
        self.bits
    }

    /// Positive zero.
    pub fn zero() -> (r: Double)
        ensures
            r == (Double { bits: 0 }),
    {
        Double { bits: 0 }
    }

    /// Whether the bits stand for no number.
    pub fn nan(self) -> (r: bool)
        ensures
            r == self.is_nan(),
    {
        self.bits % SIGN_BIT > INFINITY_BITS
    }

    /// Whether the number is a zero, of either sign.
    pub fn zero_valued(self) -> (r: bool)
        ensures
            r == self.is_zero(),
    {
        self.bits % SIGN_BIT == 0
    }

    /// The number with the opposite sign.
    pub fn neg(self) -> (r: Double)
        ensures
            r == self.negated(),
    {
        if self.bits >= SIGN_BIT {
            Double { bits: self.bits - SIGN_BIT }
        } else {
            Double { bits: self.bits + SIGN_BIT }
        }
    }

    /// The number without its sign.
    pub fn abs(self) -> (r: Double)
        ensures
            r == self.absolute(),
    {
        Double { bits: self.bits % SIGN_BIT }
    }

    fn key(self) -> (r: i64)
        ensures
            r == self.order_key(),
    {
        let mag: u64 = self.bits % SIGN_BIT;
        if self.bits >= SIGN_BIT {
            -(mag as i64)
        } else {
            mag as i64
        }
    }

    /// Whether `self < other`.
    pub fn lt(self, other: Double) -> (r: bool)
        ensures
            r == self.lt_spec(other),
    {
        !self.nan() && !other.nan() && self.key() < other.key()
    }

    /// Whether `self <= other`.
    pub fn le(self, other: Double) -> (r: bool)
        ensures
            r == self.le_spec(other),
    {
        !self.nan() && !other.nan() && self.key() <= other.key()
    }

    /// Whether the two are equal as numbers.
    pub fn equals(self, other: Double) -> (r: bool)
        ensures
            r == self.same_number(other),
    {
        !self.nan() && !other.nan() && self.key() == other.key()
    }

    /// The double that equals `i`.
    pub fn from_i32(i: i32) -> (r: Double)
        ensures
            r == Double::of_int(i as int),
    {
        if i == 0 {
            return Double { bits: 0 };
        }
        let a: u64 = if i < 0 {
            (-(i as i64)) as u64
        } else {
            i as u64
        };
        let k: u64 = top_bit_u64(a);
        proof {
            lemma2_to64();
            lemma_top_bit_bounds(a as nat);
            assert(a < pow2(32));
            lemma_top_bit_below(a as nat, 32);
            lemma_pow2_adds(k as nat, (52 - k) as nat);
            lemma2_to64_rest();
            let p = pow2(k as nat);
            let q = pow2((52 - k) as nat);
            lemma_pow2_pos((52 - k) as nat);
            assert(a * q < 2 * pow2(52)) by (nonlinear_arith)
                requires
                    a < 2 * p,
                    p * q == pow2(52),
                    q > 0,
            ;
            assert(a * q >= pow2(52)) by (nonlinear_arith)
                requires
                    a >= p,
                    p * q == pow2(52),
                    q > 0,
            ;
        }
        let shifted: u64 = a * pow2_u64(52 - k);
        let sign: u64 = if i < 0 {
            SIGN_BIT
        } else {
            0
        };
        Double { bits: sign + (1023 + k) * HIDDEN_BIT + (shifted - HIDDEN_BIT) }
    }

    /// Splits a finite number whose exponent field is in `1023..1054` into
    /// its whole part and what is left of the significand.
    fn split(self) -> (r: (u64, u64, u64))
        requires
            1023 <= self.exponent() < 1054,
        ensures
            r.0 == self.whole_part(),
            r.0 < 0x8000_0000,
            r.2 == pow2((-self.scale()) as nat),
            r.1 == self.significand() % pow2((-self.scale()) as nat),
            r.1 < r.2,
            self.scale() < 0,
    {
        let mag: u64 = self.bits % SIGN_BIT;
        let e: u64 = mag / HIDDEN_BIT;
        let f: u64 = mag % HIDDEN_BIT;
        let shift: u64 = 1075 - e;
        let unit: u64 = pow2_u64(shift);
        let m: u64 = HIDDEN_BIT + f;
        proof {
            lemma2_to64();
            lemma2_to64_rest();
            if shift > 22 {
                lemma_pow2_strictly_increases(22, shift as nat);
            }
            assert(m / unit < 0x8000_0000) by (nonlinear_arith)
                requires
                    m < 0x20_0000_0000_0000,
                    unit >= 0x40_0000,
            ;
        }
        (m / unit, m % unit, unit)
    }

    proof fn lemma_small(self)
        requires
            !self.is_nan(),
            self.exponent() < 1023,
        ensures
            self.whole_part() == 0,
            self.scale() < 0,
            self.has_fraction() == !self.is_zero(),
            self.half_or_more() == (self.exponent() == 1022),
    {
        lemma2_to64();
        lemma2_to64_rest();
        let n = (-self.scale()) as nat;
        let m = self.significand();
        assert(n >= 53);
        if n > 53 {
            lemma_pow2_strictly_increases(53, n);
        }
        assert(pow2(53) == 0x20_0000_0000_0000);
        assert(m < pow2(n));
        lemma_basic_div(m as int, pow2(n) as int);
        lemma_small_mod(m, pow2(n));
        if n > 54 {
            lemma_pow2_strictly_increases(54, n);
        }
        if n >= 54 {
            assert(pow2(54) == 0x40_0000_0000_0000);
        }
    }

    proof fn lemma_large(self)
        requires
            !self.is_nan(),
            !self.is_infinite(),
            self.exponent() >= 1054,
        ensures
            self.whole_part() >= 0x8000_0000,
            !self.half_or_more() || self.whole_part() >= 0x8000_0000,
    {
        lemma2_to64();
        lemma2_to64_rest();
        let m = self.significand();
        if self.scale() >= 0 {
            lemma_pow2_pos(self.scale() as nat);
            assert(m * pow2(self.scale() as nat) >= m) by (nonlinear_arith)
                requires
                    pow2(self.scale() as nat) >= 1,
            ;
        } else {
            let n = (-self.scale()) as nat;
            assert(n <= 21);
            if n < 21 {
                lemma_pow2_strictly_increases(n, 21);
            }
            lemma_pow2_pos(n);
            assert(m / pow2(n) >= 0x8000_0000) by (nonlinear_arith)
                requires
                    m >= 0x10_0000_0000_0000,
                    0 < pow2(n) <= 0x20_0000,
            ;
        }
    }

    /// The number rounded toward zero; out of range it is the nearest 32-bit
    /// integer, and zero for NaN.
    pub fn to_i32(self) -> (r: i32)
        ensures
            r == self.truncated(),
    {
        let mag: u64 = self.bits % SIGN_BIT;
        let neg: bool = self.bits >= SIGN_BIT;
        if mag > INFINITY_BITS {
            return 0;
        }
        let e: u64 = mag / HIDDEN_BIT;
        if e < 1023 {
            proof {
                self.lemma_small();
            }
            return 0;
        }
        if e >= 1054 {
            proof {
                if !self.is_infinite() {
                    self.lemma_large();
                }
            }
            return if neg {
                i32::MIN
            } else {
                i32::MAX
            };
        }
        let (whole, rest, unit) = self.split();
        if neg {
            (-(whole as i64)) as i32
        } else {
            whole as i32
        }
    }

    /// The number rounded toward zero; out of range it is the nearest
    /// unsigned 64-bit integer, and zero for NaN.
    pub fn to_u64(self) -> (r: u64)
        ensures
            r == self.truncated_u64(),
    {
        let mag: u64 = self.bits % SIGN_BIT;
        let neg: bool = self.bits >= SIGN_BIT;
        if mag > INFINITY_BITS || neg {
            return 0;
        }
        if mag == INFINITY_BITS {
            return u64::MAX;
        }
        let e: u64 = mag / HIDDEN_BIT;
        let f: u64 = mag % HIDDEN_BIT;
        proof {
            lemma2_to64();
            lemma2_to64_rest();
        }
        if e < 1023 {
            proof {
                self.lemma_small();
            }
            return 0;
        }
        let m: u64 = HIDDEN_BIT + f;
        if e >= 1087 {
            proof {
                let n = (e - 1075) as nat;
                if n > 12 {
                    lemma_pow2_strictly_increases(12, n);
                }
                assert(m * pow2(n) >= 0x1_0000_0000_0000_0000) by (nonlinear_arith)
                    requires
                        m >= 0x10_0000_0000_0000,
                        pow2(n) >= 0x1000,
                ;
            }
            return u64::MAX;
        }
        if e < 1075 {
            m / pow2_u64(1075 - e)
        } else {
            proof {
                let n = (e - 1075) as nat;
                if n < 11 {
                    lemma_pow2_strictly_increases(n, 11);
                }
                assert(m * pow2(n) < 0x1_0000_0000_0000_0000) by (nonlinear_arith)
                    requires
                        m < 0x20_0000_0000_0000,
                        pow2(n) <= 0x800,
                ;
            }
            m * pow2_u64(e - 1075)
        }
    }

    /// The number rounded down; out of range it is the nearest 32-bit
    /// integer, and zero for NaN.
    pub fn floor_to_i32(self) -> (r: i32)
        ensures
            r == self.floored(),
    {
        let mag: u64 = self.bits % SIGN_BIT;
        let neg: bool = self.bits >= SIGN_BIT;
        if mag > INFINITY_BITS {
            return 0;
        }
        let e: u64 = mag / HIDDEN_BIT;
        if e < 1023 {
            proof {
                self.lemma_small();
            }
            return if neg && mag != 0 {
                -1
            } else {
                0
            };
        }
        if e >= 1054 {
            proof {
                if !self.is_infinite() {
                    self.lemma_large();
                }
            }
            return if neg {
                i32::MIN
            } else {
                i32::MAX
            };
        }
        let (whole, rest, unit) = self.split();
        if neg {
            if rest != 0 {
                (-(whole as i64) - 1) as i32
            } else {
                (-(whole as i64)) as i32
            }
        } else {
            whole as i32
        }
    }

    /// The number rounded to the nearest integer, halves away from zero; out
    /// of range it is the nearest 32-bit integer, and zero for NaN.
    pub fn round_to_i32(self) -> (r: i32)
        ensures
            r == self.rounded(),
    {
        let mag: u64 = self.bits % SIGN_BIT;
        let neg: bool = self.bits >= SIGN_BIT;
        if mag > INFINITY_BITS {
            return 0;
        }
        let e: u64 = mag / HIDDEN_BIT;
        if e < 1023 {
            proof {
                self.lemma_small();
            }
            return if e == 1022 {
                if neg {
                    -1
                } else {
                    1
                }
            } else {
                0
            };
        }
        if e >= 1054 {
            proof {
                if !self.is_infinite() {
                    self.lemma_large();
                }
            }
            return if neg {
                i32::MIN
            } else {
                i32::MAX
            };
        }
        let (whole, rest, unit) = self.split();
        let up: u64 = if rest >= unit - rest {
            whole + 1
        } else {
            whole
        };
        if neg {
            (-(up as i64)) as i32
        } else if up > 0x7fff_ffff {
            i32::MAX
        } else {
            up as i32
        }
    }
}

impl Double {
    /// Whether the number is neither a NaN nor infinite.
    pub open spec fn is_finite(self) -> bool {
        self.magnitude() < INFINITY_BITS
    }

    /// The absolute value of a finite number in units of 2^-1074, the
    /// smallest positive double. It is an integer.
    pub open spec fn scaled_magnitude(self) -> nat {
        self.significand() * pow2((self.scale() + 1074) as nat)
    }

    /// The value of a finite number in units of 2^-1074.
    pub open spec fn scaled(self) -> int {
        self.with_sign(self.scaled_magnitude() as int)
    }
}

proof fn lemma_fields(d: Double)
    requires
        d.is_finite(),
    ensures
        d.magnitude() == d.exponent() * (HIDDEN_BIT as nat) + d.fraction(),
        d.fraction() < HIDDEN_BIT,
        d.exponent() < 2047,
        d.scale() + 1074 >= 0,
        d.exponent() == 0 ==> d.scaled_magnitude() == d.fraction(),
        d.exponent() > 0 ==> d.scaled_magnitude() == (HIDDEN_BIT as nat + d.fraction()) * pow2(
            (d.exponent() - 1) as nat,
        ),
{
    lemma2_to64();
    lemma_fundamental_div_mod(d.magnitude() as int, HIDDEN_BIT as int);
    if d.exponent() == 0 {
        assert(d.fraction() * 1 == d.fraction()) by (nonlinear_arith);
    }
}

proof fn lemma_magnitude_order(a: Double, b: Double)
    requires
        a.is_finite(),
        b.is_finite(),
        a.magnitude() < b.magnitude(),
    ensures
        a.scaled_magnitude() < b.scaled_magnitude(),
{
    lemma_fields(a);
    lemma_fields(b);
    lemma2_to64();
    lemma2_to64_rest();
    let h = HIDDEN_BIT as nat;
    let (ea, fa) = (a.exponent(), a.fraction());
    let (eb, fb) = (b.exponent(), b.fraction());
    assert(ea <= eb) by (nonlinear_arith)
        requires
            ea * h + fa < eb * h + fb,
            fa < h,
            fb < h,
            h > 0,
    ;
    if ea == eb {
        assert(fa < fb);
        if ea > 0 {
            let p = pow2((ea - 1) as nat);
            lemma_pow2_pos((ea - 1) as nat);
            assert((h + fa) * p < (h + fb) * p) by (nonlinear_arith)
                requires
                    fa < fb,
                    p > 0,
            ;
        }
    } else {
        let q = pow2((eb - 1) as nat);
        lemma_pow2_pos((eb - 1) as nat);
        assert((h + fb) * q >= h * q) by (nonlinear_arith)
            requires
                q > 0,
        ;
        if ea == 0 {
            assert(h * q >= h) by (nonlinear_arith)
                requires
                    q >= 1,
            ;
        } else {
            let p = pow2((ea - 1) as nat);
            lemma_pow2_pos((ea - 1) as nat);
            lemma_pow2_unfold(ea);
            if ea < eb - 1 {
                lemma_pow2_strictly_increases(ea, (eb - 1) as nat);
            }
            assert((h + fa) * p < h * (2 * p)) by (nonlinear_arith)
                requires
                    fa < h,
                    p > 0,
            ;
            assert(h * (2 * p) <= h * q) by (nonlinear_arith)
                requires
                    2 * p <= q,
            ;
        }
    }
}

/// The order and the equality of doubles are those of the numbers they
/// stand for: for finite `a` and `b`, `a < b` holds exactly where the value
/// of `a` is below that of `b`, and `a == b` exactly where the values are
/// equal. The two zeros are equal.
pub proof fn law_order_is_numeric(a: Double, b: Double)
    requires
        a.is_finite(),
        b.is_finite(),
    ensures
        a.lt_spec(b) == (a.scaled() < b.scaled()),
        a.le_spec(b) == (a.scaled() <= b.scaled()),
        a.same_number(b) == (a.scaled() == b.scaled()),
{
    lemma_fields(a);
    lemma_fields(b);
    if a.magnitude() < b.magnitude() {
        lemma_magnitude_order(a, b);
    } else if b.magnitude() < a.magnitude() {
        lemma_magnitude_order(b, a);
    } else {
        assert(a.exponent() == b.exponent());
        assert(a.fraction() == b.fraction());
    }
    lemma_zero_magnitude(a);
    lemma_zero_magnitude(b);
}

proof fn lemma_zero_magnitude(d: Double)
    requires
        d.is_finite(),
    ensures
        (d.magnitude() == 0) == (d.scaled_magnitude() == 0),
{
    lemma_fields(d);
    lemma2_to64_rest();
    if d.exponent() > 0 {
        let p = pow2((d.exponent() - 1) as nat);
        lemma_pow2_pos((d.exponent() - 1) as nat);
        assert((HIDDEN_BIT as nat + d.fraction()) * p > 0) by (nonlinear_arith)
            requires
                p > 0,
                HIDDEN_BIT as nat + d.fraction() > 0,
        ;
        assert(d.magnitude() > 0) by (nonlinear_arith)
            requires
                d.magnitude() == d.exponent() * (HIDDEN_BIT as nat) + d.fraction(),
                d.exponent() > 0,
                HIDDEN_BIT as nat > 0,
        ;
    }
}

/// The whole part of a finite number is its absolute value rounded down to
/// an integer: the value in units of 2^-1074, divided by 2^1074. So
/// `truncated` rounds toward zero, `floored` down, and `rounded` to the
/// nearest integer.
pub proof fn law_whole_part_is_numeric(d: Double)
    requires
        d.is_finite(),
    ensures
        d.whole_part() == d.scaled_magnitude() / pow2(1074),
        d.has_fraction() == (d.scaled_magnitude() % pow2(1074) != 0),
        d.half_or_more() == (2 * (d.scaled_magnitude() % pow2(1074)) >= pow2(1074)),
{
    lemma_fields(d);
    let m = d.significand() as int;
    let unit = pow2(1074) as int;
    lemma_pow2_pos(1074);
    if d.scale() >= 0 {
        let up = pow2(d.scale() as nat) as int;
        lemma_pow2_adds(d.scale() as nat, 1074);
        assert(m * (up * unit) == (m * up) * unit) by (nonlinear_arith);
        lemma_div_multiples_vanish(m * up, unit);
        lemma_mod_multiples_basic(m * up, unit);
    } else {
        let down = pow2((-d.scale()) as nat) as int;
        let rest = pow2((d.scale() + 1074) as nat) as int;
        lemma_pow2_adds((d.scale() + 1074) as nat, (-d.scale()) as nat);
        lemma_pow2_pos((-d.scale()) as nat);
        lemma_pow2_pos((d.scale() + 1074) as nat);
        assert(rest * down == unit);
        // m = (m / down) * down + m % down, so
        // m * rest = (m / down) * unit + (m % down) * rest, with the last
        // term below unit.
        lemma_fundamental_div_mod(m, down);
        let q = m / down;
        let r = m % down;
        assert(m * rest == q * unit + r * rest) by (nonlinear_arith)
            requires
                m == down * q + r,
                rest * down == unit,
        ;
        assert(0 <= r * rest < unit) by (nonlinear_arith)
            requires
                0 <= r < down,
                rest > 0,
                rest * down == unit,
        ;
        lemma_fundamental_div_mod_converse(m * rest, unit, q, r * rest);
        assert((r * rest == 0) == (r == 0)) by (nonlinear_arith)
            requires
                rest > 0,
                r >= 0,
        ;
        assert((2 * (r * rest) >= unit) == (2 * r >= down)) by (nonlinear_arith)
            requires
                rest > 0,
                rest * down == unit,
        ;
    }
}

/// An infinity is beyond every finite number, and the order ends there: the
/// positive one is above them all, the negative one below.
pub proof fn law_infinity_is_beyond(a: Double, b: Double)
    requires
        a.is_finite(),
        b.is_infinite(),
    ensures
        b.negative() ==> b.lt_spec(a),
        !b.negative() ==> a.lt_spec(b),
{
}

/// A NaN is in no order with anything, itself included, and equal to
/// nothing.
pub proof fn law_nan_is_unordered(a: Double, b: Double)
    requires
        a.is_nan(),
    ensures
        !a.lt_spec(b),
        !b.lt_spec(a),
        !a.le_spec(b),
        !b.le_spec(a),
        !a.same_number(b),
        !a.same_number(a),
{
}

/// The double made from an integer stands for that integer, and converting
/// it back gives the integer.
pub proof fn law_int_round_trip(i: i32)
    ensures
        Double::of_int(i as int).is_finite(),
        Double::of_int(i as int).scaled() == i * pow2(1074),
        !Double::of_int(i as int).is_nan(),
        Double::of_int(i as int).truncated() == i,
        Double::of_int(i as int).is_zero() == (i == 0),
        Double::of_int(i as int).negative() == (i < 0),
{
    lemma2_to64();
    lemma2_to64_rest();
    let d = Double::of_int(i as int);
    if i != 0 {
        let a = (if i < 0 {
            -i
        } else {
            i as int
        }) as nat;
        let k = top_bit(a);
        assert(a < pow2(32));
        lemma_top_bit_bounds(a);
        lemma_top_bit_below(a, 32);
        let p = pow2(k);
        let q = pow2((52 - k) as nat);
        lemma_pow2_adds(k, (52 - k) as nat);
        lemma_pow2_pos((52 - k) as nat);
        assert(a * q < 2 * pow2(52)) by (nonlinear_arith)
            requires
                a < 2 * p,
                p * q == pow2(52),
                q > 0,
        ;
        assert(a * q >= pow2(52)) by (nonlinear_arith)
            requires
                a >= p,
                p * q == pow2(52),
                q > 0,
        ;
        let h = HIDDEN_BIT as nat;
        let frac = (a * q - h) as nat;
        let mag = (1023 + k) * h + frac;
        assert(mag < 0x8000_0000_0000_0000) by (nonlinear_arith)
            requires
                mag == (1023 + k) * h + frac,
                k < 32,
                frac < h,
                h == 0x10_0000_0000_0000,
        ;
        let sign = if i < 0 {
            SIGN_BIT as nat
        } else {
            0
        };
        assert(d.bits == sign + mag);
        assert(d.magnitude() == mag);
        assert(d.negative() == (i < 0));
        assert(mag < INFINITY_BITS) by (nonlinear_arith)
            requires
                mag == (1023 + k) * h + frac,
                k < 32,
                frac < h,
                h == 0x10_0000_0000_0000,
        ;
        lemma_fundamental_div_mod_converse(mag as int, h as int, (1023 + k) as int, frac as int);
        assert(d.exponent() == 1023 + k);
        assert(d.fraction() == frac);
        assert(d.significand() == a * q);
        assert(d.scale() == k - 52);
        lemma_div_by_multiple(a as int, q as int);
        assert(a * q == q * a) by (nonlinear_arith);
        lemma_div_multiples_vanish(a as int, q as int);
        assert(d.whole_part() == a);
        assert(d.truncated() == i);
        let up = pow2((k + 1022) as nat);
        lemma_pow2_adds((52 - k) as nat, (k + 1022) as nat);
        assert((52 - k) + (k + 1022) == 1074);
        assert(q * up == pow2(1074));
        assert((a * q) * up == a * pow2(1074)) by (nonlinear_arith)
            requires
                q * up == pow2(1074),
        ;
        assert(d.scaled_magnitude() == a * pow2(1074));
        assert(i * pow2(1074) == if i < 0 {
            -(a * pow2(1074))
        } else {
            (a * pow2(1074)) as int
        }) by (nonlinear_arith)
            requires
                a == (if i < 0 {
                    -i
                } else {
                    i as int
                }),
        ;
    } else {
        assert(d.scaled_magnitude() == 0) by (nonlinear_arith)
            requires
                d.significand() == 0,
                d.scaled_magnitude() == d.significand() * pow2((d.scale() + 1074) as nat),
        ;
        lemma_pow2_pos(1074);
        lemma_basic_div(0, pow2(1074) as int);
        assert(d.magnitude() == 0);
        assert(d.exponent() == 0);
        assert(d.significand() == 0);
        assert(d.whole_part() == 0);
    }
}

/// The bit that holds the sign of a `Single`.
pub const SINGLE_SIGN_BIT: u32 = 0x8000_0000;

/// The weight of the lowest bit of the exponent field of a `Single`: 2^23.
pub const SINGLE_HIDDEN_BIT: u32 = 0x0080_0000;

/// The bit pattern of positive infinity as a `Single`.
pub const SINGLE_INFINITY_BITS: u32 = 0x7f80_0000;

impl Single {
    /// Whether the sign bit is set.
    pub open spec fn negative(self) -> bool {
        self.bits >= SINGLE_SIGN_BIT
    }

    /// The bit pattern without the sign bit.
    pub open spec fn magnitude(self) -> nat {
        (self.bits % SINGLE_SIGN_BIT) as nat
    }

    /// Whether the bits stand for no number.
    pub open spec fn is_nan(self) -> bool {
        self.magnitude() > SINGLE_INFINITY_BITS
    }

    /// Positive or negative zero.
    pub open spec fn is_zero(self) -> bool {
        self.magnitude() == 0
    }

    /// The exponent field.
    pub open spec fn exponent(self) -> nat {
        self.magnitude() / (SINGLE_HIDDEN_BIT as nat)
    }

    /// The fraction field.
    pub open spec fn fraction(self) -> nat {
        self.magnitude() % (SINGLE_HIDDEN_BIT as nat)
    }

    /// The magnitude bits of the double that has the same value: the
    /// exponent is rebased, a subnormal number is normalised, and a NaN stays
    /// a NaN with its payload, made quiet.
    pub open spec fn widened_magnitude(self) -> nat {
        let e = self.exponent();
        let f = self.fraction();
        if e == 255 {
            if f == 0 {
                INFINITY_BITS as nat
            } else if f < 0x40_0000 {
                INFINITY_BITS as nat + 0x8_0000_0000_0000 + f * 0x2000_0000
            } else {
                INFINITY_BITS as nat + f * 0x2000_0000
            }
        } else if e == 0 {
            if f == 0 {
                0
            } else {
                let k = top_bit(f);
                ((874 + k) * (HIDDEN_BIT as nat) + (f * pow2((52 - k) as nat) - HIDDEN_BIT as nat)) as nat
            }
        } else {
            (e + 896) * (HIDDEN_BIT as nat) + f * 0x2000_0000
        }
    }

    /// The double that has the same value.
    pub open spec fn widened(self) -> Double {
        Double {
            bits: ((if self.negative() {
                SIGN_BIT as nat
            } else {
                0
            }) + self.widened_magnitude()) as u64,
        }
    }

    /// The single that equals the integer `n`, for `n < 2^24`.
    pub open spec fn of_small(n: nat) -> Single {
        if n == 0 {
            Single { bits: 0 }
        } else {
            let k = top_bit(n);
            Single {
                bits: ((127 + k) * (SINGLE_HIDDEN_BIT as nat) + (n * pow2((23 - k) as nat)
                    - SINGLE_HIDDEN_BIT as nat)) as u32,
            }
        }
    }

    /// The number with the given bit pattern.
    pub fn from_bits(bits: u32) -> (r: Single)
        ensures
            r.bits == bits,
    {
        Single { bits }
    }

    /// The bit pattern of the number.
    pub fn to_bits(self) -> (r: u32)
        ensures
            r == self.bits,
    {
        self.bits
    }

    /// Whether the number is a zero, of either sign.
    pub fn zero_valued(self) -> (r: bool)
        ensures
            r == self.is_zero(),
    {
        self.bits % SINGLE_SIGN_BIT == 0
    }

    /// The double that has the same value.
    pub fn widen(self) -> (r: Double)
        ensures
            r == self.widened(),
    {
        let mag: u64 = (self.bits % SINGLE_SIGN_BIT) as u64;
        let sign: u64 = if self.bits >= SINGLE_SIGN_BIT {
            SIGN_BIT
        } else {
            0
        };
        let e: u64 = mag / 0x80_0000;
        let f: u64 = mag % 0x80_0000;
        if e == 255 {
            if f == 0 {
                Double { bits: sign + INFINITY_BITS }
            } else if f < 0x40_0000 {
                Double { bits: sign + INFINITY_BITS + 0x8_0000_0000_0000 + f * 0x2000_0000 }
            } else {
                Double { bits: sign + INFINITY_BITS + f * 0x2000_0000 }
            }
        } else if e == 0 {
            if f == 0 {
                Double { bits: sign }
            } else {
                let k: u64 = top_bit_u64(f);
                proof {
                    lemma2_to64();
                    lemma2_to64_rest();
                    lemma_top_bit_bounds(f as nat);
                    lemma_top_bit_below(f as nat, 23);
                    let p = pow2(k as nat);
                    let q = pow2((52 - k) as nat);
                    lemma_pow2_adds(k as nat, (52 - k) as nat);
                    lemma_pow2_pos((52 - k) as nat);
                    assert(f * q < 2 * pow2(52)) by (nonlinear_arith)
                        requires
                            f < 2 * p,
                            p * q == pow2(52),
                            q > 0,
                    ;
                    assert(f * q >= pow2(52)) by (nonlinear_arith)
                        requires
                            f >= p,
                            p * q == pow2(52),
                            q > 0,
                    ;
                }
                let shifted: u64 = f * pow2_u64(52 - k);
                Double { bits: sign + (874 + k) * HIDDEN_BIT + (shifted - HIDDEN_BIT) }
            }
        } else {
            assert(SINGLE_HIDDEN_BIT == 0x80_0000 && SINGLE_SIGN_BIT == 0x8000_0000);
            assert(mag < 0x8000_0000);
            assert(e < 255);
            Double { bits: sign + (e + 896) * HIDDEN_BIT + f * 0x2000_0000 }
        }
    }

    /// The single that equals `n`.
    pub fn from_small(n: u32) -> (r: Single)
        requires
            n < 0x100_0000,
        ensures
            r == Single::of_small(n as nat),
    {
        if n == 0 {
            return Single { bits: 0 };
        }
        let k: u64 = top_bit_u64(n as u64);
        proof {
            lemma2_to64();
            lemma_top_bit_bounds(n as nat);
            lemma_top_bit_below(n as nat, 24);
            let p = pow2(k as nat);
            let q = pow2((23 - k) as nat);
            lemma_pow2_adds(k as nat, (23 - k) as nat);
            lemma_pow2_pos((23 - k) as nat);
            assert(n * q < 2 * pow2(23)) by (nonlinear_arith)
                requires
                    n < 2 * p,
                    p * q == pow2(23),
                    q > 0,
            ;
            assert(n * q >= pow2(23)) by (nonlinear_arith)
                requires
                    n >= p,
                    p * q == pow2(23),
                    q > 0,
            ;
        }
        assert(k < 24);
        let shifted: u64 = (n as u64) * pow2_u64(23 - k);
        let bits: u64 = (127 + k) * 0x80_0000 + (shifted - 0x80_0000);
        Single { bits: bits as u32 }
    }
}

} // verus!
