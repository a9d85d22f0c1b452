//! Numbers in the IEEE 754 binary64 format, held as their 64 bits, and the
//! order of the numbers that the bits stand for.
//!
//! A number is one sign bit, eleven bits of exponent and 52 bits of
//! fraction. All finite numbers are whole multiples of 2^-1074, so that
//! the order of the numbers is the order of those multiples.

use vstd::arithmetic::power2::{
    lemma2_to64, lemma2_to64_rest, lemma_pow2_adds, lemma_pow2_pos,
    lemma_pow2_strictly_increases, lemma_pow2_unfold, pow2,
};
use vstd::prelude::*;

verus! {

/// The sign bit alone.
pub const SIGN_BIT: u64 = 0x8000_0000_0000_0000;

/// The lowest bit of the exponent: the first number with a hidden bit.
pub const HIDDEN_BIT: u64 = 0x0010_0000_0000_0000;

/// The bits of positive infinity: every bit of the exponent, and no bit of
/// the fraction.
pub const INFINITY_BITS: u64 = 0x7ff0_0000_0000_0000;

/// A binary64 number, by its bits. The operator `==` compares the bits; the
/// method `eq` compares the numbers that they stand for.
#[derive(Debug, Clone, Copy, PartialEq, Eq, Structural)]
pub struct Binary64 {
    pub bits: u64,
}

/// What the 63 bits behind the sign stand for, in units of 2^-1074. The
/// infinity counts as the number that its bits would be if the exponent
/// went on, which lies above every finite number.
pub open spec fn magnitude_of(low: nat) -> nat {
    let exponent = low / (HIDDEN_BIT as nat);
    let fraction = low % (HIDDEN_BIT as nat);
    if exponent == 0 {
        fraction
    } else {
        ((HIDDEN_BIT + fraction) * pow2((exponent - 1) as nat)) as nat
    }
}

impl Binary64 {
    /// Whether the sign bit is set.
    pub open spec fn negative(self) -> bool {
        self.bits >= SIGN_BIT
    }

    /// The 63 bits behind the sign.
    pub open spec fn low(self) -> nat {
        (self.bits % SIGN_BIT) as nat
    }

    /// Whether the bits stand for no number.
    pub open spec fn nan(self) -> bool {
        self.low() > INFINITY_BITS
    }

    /// What the bits stand for, in units of 2^-1074.
    pub open spec fn units(self) -> int {
        if self.negative() {
            -(magnitude_of(self.low()) as int)
        } else {
            magnitude_of(self.low()) as int
        }
    }

    /// The size of what the bits stand for, in units of 2^-1074.
    pub open spec fn abs_units(self) -> nat {
        magnitude_of(self.low())
    }

    /// `self < other`: both are numbers, and the first is the smaller.
    pub open spec fn less(self, other: Binary64) -> bool {
        !self.nan() && !other.nan() && self.units() < other.units()
    }

    /// `self <= other`: both are numbers, and the first is not the larger.
    pub open spec fn at_most(self, other: Binary64) -> bool {
        !self.nan() && !other.nan() && self.units() <= other.units()
    }

    /// `self == other`: both are numbers, and the same number. The two
    /// zeros are the same number.
    pub open spec fn same(self, other: Binary64) -> bool {
        !self.nan() && !other.nan() && self.units() == other.units()
    }
}

/// Among the bits behind the sign, larger bits stand for a larger number.
pub proof fn lemma_magnitude_increases(a: nat, b: nat)
    requires
        a < b,
    ensures
        magnitude_of(a) < magnitude_of(b),
{
    let h = HIDDEN_BIT as nat;
    let (ea, fa) = (a / h, a % h);
    let (eb, fb) = (b / h, b % h);
    vstd::arithmetic::div_mod::lemma_fundamental_div_mod(a as int, h as int);
    vstd::arithmetic::div_mod::lemma_fundamental_div_mod(b as int, h as int);
    assert(ea <= eb) by (nonlinear_arith)
        requires
            a < b,
            a == h * ea + fa,
            b == h * eb + fb,
            0 <= fa < h,
            0 <= fb < h,
    ;
    if ea == eb {
        if ea > 0 {
            let p = pow2((ea - 1) as nat);
            lemma_pow2_pos((ea - 1) as nat);
            assert((h + fa) * p < (h + fb) * p) by (nonlinear_arith)
                requires
                    fa < fb,
                    p > 0,
            ;
        }
    } else {
        let q = pow2((eb - 1) as nat);
        lemma_pow2_pos((eb - 1) as nat);
        assert(h * q <= (h + fb) * q) by (nonlinear_arith)
            requires
                0 <= fb,
                q > 0,
        ;
        if ea == 0 {
            assert(h * 1 <= h * q) by (nonlinear_arith)
                requires
                    q >= 1,
                    h > 0,
            ;
        } else {
            let p = pow2((ea - 1) as nat);
            lemma_pow2_pos((ea - 1) as nat);
            lemma_pow2_unfold(ea);
            if ea < eb - 1 {
                lemma_pow2_strictly_increases(ea, (eb - 1) as nat);
            }
            assert((h + fa) * p < h * (2 * p)) by (nonlinear_arith)
                requires
                    fa < h,
                    p > 0,
            ;
            assert(h * (2 * p) <= h * q) by (nonlinear_arith)
                requires
                    2 * p <= q,
                    h > 0,
            ;
        }
    }
}

/// The zero bits stand for zero, and no other bits behind the sign do.
pub proof fn lemma_magnitude_zero(a: nat)
    ensures
        magnitude_of(0) == 0,
        a > 0 ==> magnitude_of(a) > 0,
{
    if a > 0 {
        lemma_magnitude_increases(0, a);
    }
}

impl Binary64 {
    /// The number with the given bits.
    pub fn from_bits(bits: u64) -> (r: Binary64)
        ensures
            r.bits == bits,
    {
        Binary64 { bits }
    }

    /// The bits of the number.
    pub fn to_bits(self) -> (r: u64)
        ensures
            r == self.bits,
    {
        self.bits
    }

    /// Whether the bits stand for no number.
    pub fn is_nan(self) -> (r: bool)
        ensures
            r == self.nan(),
    {
        self.bits % SIGN_BIT > INFINITY_BITS
    }

    /// Whether the sign bit is clear.
    pub fn is_sign_positive(self) -> (r: bool)
        ensures
            r == !self.negative(),
    {
        self.bits < SIGN_BIT
    }

    /// The number without its sign.
    pub fn abs(self) -> (r: Binary64)
        ensures
            r.bits == self.low(),
            !r.negative(),
            r.nan() == self.nan(),
            r.units() == if self.units() < 0 {
                -self.units()
            } else {
                self.units()
            },
    {
        Binary64 { bits: self.bits % SIGN_BIT }
    }

    /// `self < other`.
    pub fn lt(self, other: Binary64) -> (r: bool)
        ensures
            r == self.less(other),
    {
        if self.is_nan() || other.is_nan() {
            return false;
        }
        let a = self.bits % SIGN_BIT;
        let b = other.bits % SIGN_BIT;
        proof {
            lemma_magnitude_zero(a as nat);
            lemma_magnitude_zero(b as nat);
            if a < b {
                lemma_magnitude_increases(a as nat, b as nat);
            }
            if b < a {
                lemma_magnitude_increases(b as nat, a as nat);
            }
        }
        if self.bits < SIGN_BIT {
            other.bits < SIGN_BIT && a < b
        } else if other.bits < SIGN_BIT {
            a > 0 || b > 0
        } else {
            b < a
        }
    }

    /// `self == other`, where the two zeros are equal and what is no
    /// number equals nothing.
    pub fn eq(self, other: Binary64) -> (r: bool)
        ensures
            r == self.same(other),
    {
        if self.is_nan() || other.is_nan() {
            return false;
        }
        let a = self.bits % SIGN_BIT;
        let b = other.bits % SIGN_BIT;
        proof {
            lemma_magnitude_zero(a as nat);
            lemma_magnitude_zero(b as nat);
            if a < b {
                lemma_magnitude_increases(a as nat, b as nat);
            }
            if b < a {
                lemma_magnitude_increases(b as nat, a as nat);
            }
        }
        if a == 0 && b == 0 {
            true
        } else {
            self.bits == other.bits
        }
    }

    /// `self <= other`.
    pub fn le(self, other: Binary64) -> (r: bool)
        ensures
            r == self.at_most(other),
    {
        self.lt(other) || self.eq(other)
    }

    /// `self > other`.
    pub fn gt(self, other: Binary64) -> (r: bool)
        ensures
            r == other.less(self),
    {
        other.lt(self)
    }

    /// `self >= other`.
    pub fn ge(self, other: Binary64) -> (r: bool)
        ensures
            r == other.at_most(self),
    {
        other.le(self)
    }
}

/// The distance between `x` and the fraction `numerator / denominator`, in
/// units of 2^-1074 / `denominator`.
pub open spec fn distance(x: Binary64, numerator: int, denominator: nat) -> int {
    let apart = x.units() * denominator - numerator * pow2(1074);
    if apart < 0 {
        -apart
    } else {
        apart
    }
}

/// Whether `x` is the fraction `numerator / denominator` itself.
pub open spec fn is_exactly(x: Binary64, numerator: int, denominator: nat) -> bool {
    !x.nan() && denominator > 0 && distance(x, numerator, denominator) == 0
}

/// Whether `x` is a number of the format that is nearest to the fraction
/// `numerator / denominator`: a finite number other than zero, such that
/// neither the next number above it nor the next below it lies nearer to
/// the fraction.
pub open spec fn is_nearest(x: Binary64, numerator: int, denominator: nat) -> bool {
    &&& denominator > 0
    &&& 0 < x.low() < INFINITY_BITS
    &&& distance(x, numerator, denominator) <= distance(
        Binary64 { bits: (x.bits + 1) as u64 },
        numerator,
        denominator,
    )
    &&& distance(x, numerator, denominator) <= distance(
        Binary64 { bits: (x.bits - 1) as u64 },
        numerator,
        denominator,
    )
}

/// The significand of a number with a hidden bit: the hidden bit and the
/// fraction.
pub open spec fn significand(x: Binary64) -> int {
    HIDDEN_BIT + x.low() % (HIDDEN_BIT as nat)
}

/// The sign of a number: -1 or 1.
pub open spec fn sign(x: Binary64) -> int {
    if x.negative() {
        -1
    } else {
        1
    }
}

/// A number with a hidden bit is its significand times a power of two.
proof fn lemma_units(x: Binary64, k: nat)
    requires
        HIDDEN_BIT <= x.low(),
        x.low() / (HIDDEN_BIT as nat) + k == 1075,
    ensures
        x.units() * pow2(k) == sign(x) * significand(x) * pow2(1074),
{
    let e = x.low() / (HIDDEN_BIT as nat);
    let p = pow2((e - 1) as nat);
    lemma_pow2_adds((e - 1) as nat, k);
    let m = significand(x);
    let s = sign(x);
    let q = pow2(k);
    assert(x.units() == s * (m * p));
    assert((s * (m * p)) * q == s * m * (p * q)) by (nonlinear_arith);
}

/// Shows that a number with a hidden bit is a fraction, from the
/// significand of the number and the power of two that takes it to a whole
/// number.
pub proof fn lemma_is_exactly(x: Binary64, numerator: int, denominator: nat, k: nat)
    requires
        denominator > 0,
        HIDDEN_BIT <= x.low() < INFINITY_BITS,
        x.low() / (HIDDEN_BIT as nat) + k == 1075,
        sign(x) * significand(x) * denominator == numerator * pow2(k),
    ensures
        is_exactly(x, numerator, denominator),
{
    lemma_units(x, k);
    lemma_pow2_pos(k);
    lemma_pow2_pos(1074);
    let u = x.units();
    let q = pow2(k) as int;
    let t = pow2(1074) as int;
    let sm = sign(x) * significand(x);
    let d = denominator as int;
    assert(u * d == numerator * t) by (nonlinear_arith)
        requires
            u * q == sm * t,
            sm * d == numerator * q,
            q > 0,
    ;
}

/// Shows that a number with a hidden bit is nearest to a fraction, from
/// the significand of the number and the power of two that takes it to a
/// whole number: the significand is within half a unit of the fraction
/// taken to that power.
pub proof fn lemma_is_nearest(x: Binary64, numerator: int, denominator: nat, k: nat)
    requires
        denominator > 0,
        HIDDEN_BIT <= x.low() < INFINITY_BITS,
        0 < x.low() % (HIDDEN_BIT as nat) < HIDDEN_BIT - 1,
        x.low() / (HIDDEN_BIT as nat) + k == 1075,
        -(denominator as int) <= 2 * (sign(x) * significand(x) * denominator - numerator * pow2(
            k,
        )) <= denominator,
    ensures
        is_nearest(x, numerator, denominator),
{
    let h = HIDDEN_BIT as nat;
    let up = Binary64 { bits: (x.bits + 1) as u64 };
    let down = Binary64 { bits: (x.bits - 1) as u64 };
    vstd::arithmetic::div_mod::lemma_fundamental_div_mod(x.low() as int, h as int);
    let e = x.low() / h;
    let f = x.low() % h;
    assert(up.low() == x.low() + 1 && down.low() == x.low() - 1);
    assert(up.negative() == x.negative() && down.negative() == x.negative());
    vstd::arithmetic::div_mod::lemma_fundamental_div_mod_converse(
        up.low() as int,
        h as int,
        e as int,
        f as int + 1,
    );
    vstd::arithmetic::div_mod::lemma_fundamental_div_mod_converse(
        down.low() as int,
        h as int,
        e as int,
        f as int - 1,
    );
    lemma_units(x, k);
    lemma_units(up, k);
    lemma_units(down, k);
    lemma_pow2_pos(k);
    lemma_pow2_pos(1074);
    let q = pow2(k) as int;
    let t = pow2(1074) as int;
    let d = denominator as int;
    let sm = sign(x) * significand(x);
    let s = sign(x);
    assert(sign(up) * significand(up) == sm + s) by (nonlinear_arith)
        requires
            sign(up) == s,
            significand(up) == significand(x) + 1,
            sm == s * significand(x),
    ;
    assert(sign(down) * significand(down) == sm - s) by (nonlinear_arith)
        requires
            sign(down) == s,
            significand(down) == significand(x) - 1,
            sm == s * significand(x),
    ;
    // With c = sm d - n q, the three distances times q are |c| t, |c + s d| t
    // and |c - s d| t.
    let c = sm * d - numerator * q;
    let c_up = (sm + s) * d - numerator * q;
    let c_down = (sm - s) * d - numerator * q;
    assert(c_up == c + s * d && c_down == c - s * d) by (nonlinear_arith)
        requires
            c == sm * d - numerator * q,
            c_up == (sm + s) * d - numerator * q,
            c_down == (sm - s) * d - numerator * q,
    ;
    assert(s * d == d || s * d == -d) by (nonlinear_arith)
        requires
            s == 1 || s == -1,
    ;
    lemma_shifted(x.units(), sm, numerator, d, q, t);
    lemma_shifted(up.units(), sm + s, numerator, d, q, t);
    lemma_shifted(down.units(), sm - s, numerator, d, q, t);
    lemma_scaled_order(
        x.units() * d - numerator * t,
        up.units() * d - numerator * t,
        c,
        c_up,
        q,
        t,
    );
    lemma_scaled_order(
        x.units() * d - numerator * t,
        down.units() * d - numerator * t,
        c,
        c_down,
        q,
        t,
    );
}

/// If `u q = m t`, then `(u d - n t) q = (m d - n q) t`.
proof fn lemma_shifted(u: int, m: int, n: int, d: int, q: int, t: int)
    requires
        u * q == m * t,
    ensures
        (u * d - n * t) * q == (m * d - n * q) * t,
{
    assert((u * d - n * t) * q == (u * q) * d - n * t * q) by (nonlinear_arith);
    assert((m * d - n * q) * t == (m * t) * d - n * t * q) by (nonlinear_arith);
}

/// If `a q = c t` and `b q = e t` for positive `q` and `t`, and `c` is no
/// larger in size than `e`, then `a` is no larger in size than `b`.
proof fn lemma_scaled_order(a: int, b: int, c: int, e: int, q: int, t: int)
    requires
        q > 0,
        t > 0,
        a * q == c * t,
        b * q == e * t,
        (if c < 0 {
            -c
        } else {
            c
        }) <= (if e < 0 {
            -e
        } else {
            e
        }),
    ensures
        (if a < 0 {
            -a
        } else {
            a
        }) <= (if b < 0 {
            -b
        } else {
            b
        }),
{
    let abs_a = if a < 0 { -a } else { a };
    let abs_b = if b < 0 { -b } else { b };
    let abs_c = if c < 0 { -c } else { c };
    let abs_e = if e < 0 { -e } else { e };
    assert(abs_a * q == abs_c * t) by (nonlinear_arith)
        requires
            a * q == c * t,
            q > 0,
            t > 0,
            abs_a == if a < 0 { -a } else { a },
            abs_c == if c < 0 { -c } else { c },
    ;
    assert(abs_b * q == abs_e * t) by (nonlinear_arith)
        requires
            b * q == e * t,
            q > 0,
            t > 0,
            abs_b == if b < 0 { -b } else { b },
            abs_e == if e < 0 { -e } else { e },
    ;
    assert(abs_a <= abs_b) by (nonlinear_arith)
        requires
            abs_a * q == abs_c * t,
            abs_b * q == abs_e * t,
            abs_c <= abs_e,
            q > 0,
            t > 0,
    ;
}

/// Of two numbers with the same sign bit, the one with the larger bits
/// behind the sign is the larger in size.
proof fn lemma_magnitude_order(a: nat, b: nat)
    requires
        a <= b,
    ensures
        magnitude_of(a) <= magnitude_of(b),
{
    if a < b {
        lemma_magnitude_increases(a, b);
    }
}

/// A number that is nearest to a fraction among its two neighbours is
/// nearest to it among all numbers of the format.
pub proof fn lemma_nearest_among_all(x: Binary64, numerator: int, denominator: nat, y: Binary64)
    requires
        is_nearest(x, numerator, denominator),
        !y.nan(),
    ensures
        distance(x, numerator, denominator) <= distance(y, numerator, denominator),
{
    let up = Binary64 { bits: (x.bits + 1) as u64 };
    let down = Binary64 { bits: (x.bits - 1) as u64 };
    assert(up.low() == x.low() + 1 && down.low() == x.low() - 1);
    assert(up.negative() == x.negative() && down.negative() == x.negative());
    lemma_magnitude_increases(x.low(), up.low());
    lemma_magnitude_increases(down.low(), x.low());
    lemma_magnitude_zero(y.low());
    // The neighbour above `x` and the neighbour below it, as numbers.
    let above = if x.negative() {
        down
    } else {
        up
    };
    let below = if x.negative() {
        up
    } else {
        down
    };
    assert(below.units() < x.units() < above.units());
    let d = denominator as int;
    let t = numerator * pow2(1074);
    if y.units() > x.units() {
        // Nothing lies between `x` and the neighbour above it.
        if y.negative() == x.negative() {
            if x.negative() {
                if y.low() >= x.low() {
                    lemma_magnitude_order(x.low(), y.low());
                }
                lemma_magnitude_order(y.low(), down.low());
            } else {
                if y.low() <= x.low() {
                    lemma_magnitude_order(y.low(), x.low());
                }
                lemma_magnitude_order(up.low(), y.low());
            }
        }
        assert(y.units() >= above.units());
        assert(x.units() * d < above.units() * d <= y.units() * d) by (nonlinear_arith)
            requires
                x.units() < above.units() <= y.units(),
                d > 0,
        ;
    } else if y.units() < x.units() {
        if y.negative() == x.negative() {
            if x.negative() {
                if y.low() <= x.low() {
                    lemma_magnitude_order(y.low(), x.low());
                }
                lemma_magnitude_order(up.low(), y.low());
            } else {
                if y.low() >= x.low() {
                    lemma_magnitude_order(x.low(), y.low());
                }
                lemma_magnitude_order(y.low(), down.low());
            }
        }
        assert(y.units() <= below.units());
        assert(y.units() * d <= below.units() * d < x.units() * d) by (nonlinear_arith)
            requires
                y.units() <= below.units() < x.units(),
                d > 0,
        ;
    }
}

/// The powers of two that take the thresholds of the model to whole
/// numbers.
pub proof fn lemma_powers_of_two()
    ensures
        pow2(40) == 0x10000000000,
        pow2(45) == 0x200000000000,
        pow2(46) == 0x400000000000,
        pow2(50) == 0x4000000000000,
        pow2(51) == 0x8000000000000,
        pow2(52) == 0x10000000000000,
        pow2(53) == 0x20000000000000,
        pow2(55) == 0x80000000000000,
        pow2(56) == 0x100000000000000,
        pow2(57) == 0x200000000000000,
        pow2(58) == 0x400000000000000,
        pow2(59) == 0x800000000000000,
        pow2(60) == 0x1000000000000000,
        pow2(61) == 0x2000000000000000,
        pow2(62) == 0x4000000000000000,
        pow2(66) == 0x40000000000000000,
        pow2(71) == 0x800000000000000000,
        pow2(72) == 0x1000000000000000000,
        pow2(92) == 0x100000000000000000000000,
{
    lemma2_to64();
    lemma2_to64_rest();
    lemma_pow2_adds(64, 2);
    lemma_pow2_adds(64, 7);
    lemma_pow2_adds(64, 8);
    lemma_pow2_adds(64, 28);
}

} // verus!
