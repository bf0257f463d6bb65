//! Fixed-point decimal arithmetic for rates, indices and risk ratios.
//!
//! A `Decimal` stores `atomics`, an integer count of millionths: the value
//! `x` is represented as `x * 1_000_000` truncated toward zero. All
//! arithmetic is checked; an operation whose intermediate product would not
//! fit in `u128` reports failure instead of wrapping. Truncation is always
//! toward zero, which favors the pool over its users.

use vstd::prelude::*;
use vstd::arithmetic::div_mod::{
    lemma_fundamental_div_mod, lemma_mod_bound, lemma_div_is_ordered,
};
use vstd::arithmetic::mul::lemma_mul_inequality;

verus! {

/// Number of atomic units in 1.0.
pub const DECIMAL_SCALE: u128 = 1_000_000;

/// A nonnegative fixed-point number with six decimal places.
#[derive(Clone, Copy, Debug, PartialEq, Eq, Structural)]
pub struct Decimal {
    /// The value in millionths.
    pub atomics: u128,
}

/// Truncating multiply-then-divide over the mathematical integers:
/// `a * num / den`, or nothing when the product exceeds `u128::MAX`.
pub open spec fn spec_mul_div(a: int, num: int, den: int) -> Option<int> {
    if a * num <= u128::MAX {
        Some(a * num / den)
    } else {
        None
    }
}

/// Computes `a * num / den` with truncation, reporting `None` when the
/// intermediate product `a * num` does not fit in `u128`.
pub fn checked_mul_div(a: u128, num: u128, den: u128) -> (r: Option<u128>)
    requires
        den != 0,
    ensures
        r matches Some(v) ==> v == a as int * num as int / den as int
            && a as int * num as int <= u128::MAX,
        r is None ==> a as int * num as int > u128::MAX,
        r is Some <==> spec_mul_div(a as int, num as int, den as int) is Some,
        r matches Some(v) ==> spec_mul_div(a as int, num as int, den as int) == Some(v as int),
{
    if a == 0 {
        return Some(0);
    }
    let q: u128 = u128::MAX / a;
    if num <= q {
        proof {
            lemma_mul_inequality(num as int, q as int, a as int);
            lemma_fundamental_div_mod(u128::MAX as int, a as int);
            lemma_mod_bound(u128::MAX as int, a as int);
            assert(a as int * num as int <= u128::MAX);
        }
        let product: u128 = a * num;
        Some(product / den)
    } else {
        proof {
            lemma_mul_inequality(q as int + 1, num as int, a as int);
            lemma_fundamental_div_mod(u128::MAX as int, a as int);
            lemma_mod_bound(u128::MAX as int, a as int);
            assert((q as int + 1) * a as int == q as int * a as int + a as int)
                by (nonlinear_arith);
            assert(a as int * q as int == q as int * a as int) by (nonlinear_arith);
            assert(num as int * a as int == a as int * num as int) by (nonlinear_arith);
            assert(a as int * num as int > u128::MAX);
        }
        None
    }
}

/// Multiplication that reports `None` instead of overflowing.
pub fn checked_mul_u128(a: u128, b: u128) -> (r: Option<u128>)
    ensures
        r matches Some(v) ==> v == a as int * b as int,
        r is Some <==> a as int * b as int <= u128::MAX,
{
    let r = checked_mul_div(a, b, 1);
    proof {
        assert(a as int * b as int / 1 == a as int * b as int);
    }
    r
}

/// Addition that reports `None` instead of overflowing.
pub fn checked_add_u128(a: u128, b: u128) -> (r: Option<u128>)
    ensures
        r matches Some(v) ==> v == a + b,
        r is None <==> a + b > u128::MAX,
{
    if a <= u128::MAX - b {
        Some(a + b)
    } else {
        None
    }
}

impl Decimal {
    /// The value 0.0.
    pub fn zero() -> (r: Decimal)
        ensures
            r.atomics == 0,
    {
        Decimal { atomics: 0 }
    }

    /// The value 1.0.
    pub fn one() -> (r: Decimal)
        ensures
            r.atomics == DECIMAL_SCALE,
    {
        Decimal { atomics: DECIMAL_SCALE }
    }

    /// A decimal from a raw count of millionths.
    pub fn new(atomics: u128) -> (r: Decimal)
        ensures
            r.atomics == atomics,
    {
        Decimal { atomics }
    }

    /// A decimal from a whole-percent figure: `percent(60)` is 0.6.
    pub fn percent(p: u64) -> (r: Option<Decimal>)
        ensures
            p as int * 10_000 <= u128::MAX ==> (r matches Some(d)
                && d.atomics == p as int * 10_000),
    {
        if p as u128 <= u128::MAX / 10_000 {
            Some(Decimal { atomics: p as u128 * 10_000 })
        } else {
            None
        }
    }

    /// True when `self <= other`.
    pub fn le(&self, other: &Decimal) -> (r: bool)
        ensures
            r == (self.atomics <= other.atomics),
    {
        self.atomics <= other.atomics
    }

    /// True when the value is at most 1.0.
    pub fn le_one(&self) -> (r: bool)
        ensures
            r == (self.atomics <= DECIMAL_SCALE),
    {
        self.atomics <= DECIMAL_SCALE
    }

    /// True when the value is 0.0.
    pub fn is_zero(&self) -> (r: bool)
        ensures
            r == (self.atomics == 0),
    {
        self.atomics == 0
    }

    /// Checked decimal addition.
    pub fn checked_add(self, other: Decimal) -> (r: Option<Decimal>)
        ensures
            r matches Some(d) ==> d.atomics == self.atomics + other.atomics,
            r is None <==> self.atomics + other.atomics > u128::MAX,
    {
        match checked_add_u128(self.atomics, other.atomics) {
            Some(v) => Some(Decimal { atomics: v }),
            None => None,
        }
    }

    /// Truncating decimal subtraction, saturating at zero is not wanted:
    /// the caller must know `other <= self`.
    pub fn sub(self, other: Decimal) -> (r: Decimal)
        requires
            other.atomics <= self.atomics,
        ensures
            r.atomics == self.atomics - other.atomics,
    {
        Decimal { atomics: self.atomics - other.atomics }
    }

    /// Checked truncating decimal multiplication:
    /// `(a * b).atomics == a.atomics * b.atomics / DECIMAL_SCALE`.
    pub fn checked_mul(self, other: Decimal) -> (r: Option<Decimal>)
        ensures
            r matches Some(d) ==> d.atomics == self.atomics as int * other.atomics as int
                / DECIMAL_SCALE as int,
            r is Some <==> self.atomics as int * other.atomics as int <= u128::MAX,
    {
        match checked_mul_div(self.atomics, other.atomics, DECIMAL_SCALE) {
            Some(v) => Some(Decimal { atomics: v }),
            None => None,
        }
    }

    /// Checked ratio `num / den` as a decimal, truncating.
    pub fn checked_from_ratio(num: u128, den: u128) -> (r: Option<Decimal>)
        requires
            den != 0,
        ensures
            r matches Some(d) ==> d.atomics == num as int * DECIMAL_SCALE as int / den as int,
            r is Some <==> num as int * DECIMAL_SCALE as int <= u128::MAX,
    {
        match checked_mul_div(num, DECIMAL_SCALE, den) {
            Some(v) => Some(Decimal { atomics: v }),
            None => None,
        }
    }
}

/// Truncating product of a raw amount and a decimal factor:
/// `amount * d`, i.e. `amount * d.atomics / DECIMAL_SCALE`.
pub fn checked_mul_amount(amount: u128, d: Decimal) -> (r: Option<u128>)
    ensures
        r matches Some(v) ==> v == amount as int * d.atomics as int / DECIMAL_SCALE as int,
        r is Some <==> amount as int * d.atomics as int <= u128::MAX,
{
    checked_mul_div(amount, d.atomics, DECIMAL_SCALE)
}

/// Truncating quotient of a raw amount by a nonzero decimal factor:
/// `amount / d`, i.e. `amount * DECIMAL_SCALE / d.atomics`.
pub fn checked_div_amount(amount: u128, d: Decimal) -> (r: Option<u128>)
    requires
        d.atomics != 0,
    ensures
        r matches Some(v) ==> v == amount as int * DECIMAL_SCALE as int / d.atomics as int,
        r is Some <==> amount as int * DECIMAL_SCALE as int <= u128::MAX,
{
    checked_mul_div(amount, DECIMAL_SCALE, d.atomics)
}

/// Division by a positive divisor keeps order: the quotient of the smaller
/// numerator is no larger.
pub proof fn lemma_div_ordered(x: int, y: int, d: int)
    requires
        x <= y,
        0 < d,
    ensures
        x / d <= y / d,
{
    lemma_div_is_ordered(x, y, d);
}

/// Scaling by a factor of at least 1.0 (truncating) never shrinks a
/// nonnegative amount: `a * f / DECIMAL_SCALE >= a` when `f >= DECIMAL_SCALE`.
pub proof fn lemma_mul_div_ge(a: int, f: int)
    requires
        0 <= a,
        DECIMAL_SCALE <= f,
    ensures
        a * f / DECIMAL_SCALE as int >= a,
{
    lemma_mul_inequality(DECIMAL_SCALE as int, f, a);
    assert(a * DECIMAL_SCALE as int <= a * f) by {
        assert(DECIMAL_SCALE as int * a == a * DECIMAL_SCALE as int) by (nonlinear_arith);
        assert(f * a == a * f) by (nonlinear_arith);
    }
    assert(a * DECIMAL_SCALE as int / DECIMAL_SCALE as int == a) by {
        vstd::arithmetic::div_mod::lemma_div_multiples_vanish(a, DECIMAL_SCALE as int);
        assert(DECIMAL_SCALE as int * a == a * DECIMAL_SCALE as int) by (nonlinear_arith);
    }
    lemma_div_is_ordered(a * DECIMAL_SCALE as int, a * f, DECIMAL_SCALE as int);
}

/// Round trip of scaling and descaling at one index: descaling what was
/// scaled returns at most the original amount, and the loss is below one
/// index unit. At index exactly 1.0 the round trip is exact.
pub proof fn lemma_scale_round_trip(a: int, i: int)
    requires
        0 <= a,
        DECIMAL_SCALE <= i,
    ensures
        (a * DECIMAL_SCALE as int / i) * i / DECIMAL_SCALE as int <= a,
        (a - (a * DECIMAL_SCALE as int / i) * i / DECIMAL_SCALE as int) * (DECIMAL_SCALE as int)
            < i + DECIMAL_SCALE,
        i == DECIMAL_SCALE ==> (a * DECIMAL_SCALE as int / i) * i / DECIMAL_SCALE as int == a,
{
    let s = DECIMAL_SCALE as int;
    let scaled = a * s / i;
    let back = scaled * i / s;
    lemma_fundamental_div_mod(a * s, i);
    lemma_mod_bound(a * s, i);
    assert(scaled * i <= a * s) by {
        assert(a * s == i * (a * s / i) + (a * s) % i);
        assert(i * scaled == scaled * i) by (nonlinear_arith);
    }
    lemma_div_is_ordered(scaled * i, a * s, s);
    assert(a * s / s == a) by {
        vstd::arithmetic::div_mod::lemma_div_multiples_vanish(a, s);
        assert(s * a == a * s) by (nonlinear_arith);
    }
    lemma_fundamental_div_mod(scaled * i, s);
    lemma_mod_bound(scaled * i, s);
    assert(back * s > scaled * i - s) by {
        assert(scaled * i == s * (scaled * i / s) + (scaled * i) % s);
        assert(s * back == back * s) by (nonlinear_arith);
    }
    assert(scaled * i > a * s - i) by {
        assert(a * s == i * scaled + (a * s) % i);
        assert(i * scaled == scaled * i) by (nonlinear_arith);
    }
    assert((a - back) * s < i + s) by {
        assert((a - back) * s == a * s - back * s) by (nonlinear_arith);
    }
    if i == s {
        assert(scaled == a);
        assert(scaled * s / s == scaled) by {
            vstd::arithmetic::div_mod::lemma_div_multiples_vanish(scaled, s);
            assert(s * scaled == scaled * s) by (nonlinear_arith);
        }
    }
}

} // verus!
