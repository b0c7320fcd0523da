//! Exact fixed-point numbers and the ceiling division they need.
//!
//! Wave statistics and service factors are decimal values with few fractional
//! digits; every formula of the derivation multiplies them by small decimal
//! constants. Holding six fractional digits on the inputs and twelve on the
//! results makes every step exact, so the contracts can pin each derived
//! quantity to a closed-form integer expression.

use vstd::arithmetic::div_mod::{
    lemma_div_is_ordered, lemma_fundamental_div_mod, lemma_fundamental_div_mod_converse,
};
use vstd::prelude::*;

verus! {

/// A decimal number with six fractional digits: the value is
/// `micros / 1_000_000`.
#[derive(Clone, Copy, Debug, PartialEq, Eq, Structural)]
pub struct Decimal {
    pub micros: i64,
}

impl View for Decimal {
    type V = int;

    /// The numerator over the fixed denominator `1_000_000`.
    open spec fn view(&self) -> int {
        self.micros as int
    }
}

impl Decimal {
    /// The decimal `micros / 1_000_000`.
    pub fn from_micros(micros: i64) -> (r: Decimal)
        ensures
            r@ == micros as int,
    {
        Decimal { micros }
    }
}

/// A derived design quantity with twelve fractional digits: the value is
/// `pico / 1_000_000_000_000`.
#[derive(Clone, Copy, Debug, PartialEq, Eq, Structural)]
pub struct DesignValue {
    pub pico: i128,
}

impl View for DesignValue {
    type V = int;

    /// The numerator over the fixed denominator `1_000_000_000_000`.
    open spec fn view(&self) -> int {
        self.pico as int
    }
}

/// A plausible period band, as a pair of bounds.
#[derive(Clone, Copy, Debug, PartialEq, Eq, Structural)]
#[verifier::ext_equal]
pub struct PeriodRange {
    pub lower: DesignValue,
    pub upper: DesignValue,
}

/// Mathematical ceiling of `n / d`, for a positive divisor `d`.
pub open spec fn spec_ceil_div(n: int, d: int) -> int {
    if n % d == 0 {
        n / d
    } else {
        n / d + 1
    }
}

/// The ceiling is the least integer whose product with `d` reaches `n`:
/// `n <= spec_ceil_div(n, d) * d < n + d`.
pub proof fn lemma_ceil_div_bounds(n: int, d: int)
    requires
        d > 0,
    ensures
        n <= spec_ceil_div(n, d) * d,
        spec_ceil_div(n, d) * d < n + d,
{
    lemma_fundamental_div_mod(n, d);
    let q = n / d;
    let r = n % d;
    if r == 0 {
        assert(q * d == n) by (nonlinear_arith)
            requires
                n == d * q + r,
                r == 0,
        ;
    } else {
        assert((q + 1) * d == n - r + d) by (nonlinear_arith)
            requires
                n == d * q + r,
        ;
    }
}

/// Ceiling division is monotonic in the numerator.
pub proof fn lemma_ceil_div_mono(n1: int, n2: int, d: int)
    requires
        d > 0,
        n1 <= n2,
    ensures
        spec_ceil_div(n1, d) <= spec_ceil_div(n2, d),
{
    lemma_div_is_ordered(n1, n2, d);
    lemma_fundamental_div_mod(n1, d);
    lemma_fundamental_div_mod(n2, d);
    if n1 % d != 0 && n2 % d == 0 && n1 / d == n2 / d {
        let q = n1 / d;
        assert(n1 > n2) by (nonlinear_arith)
            requires
                n1 == d * q + n1 % d,
                n2 == d * q,
                n1 % d > 0,
        ;
    }
}

/// Ceiling division, exact per `spec_ceil_div`.
pub fn ceil_div(n: i128, d: i128) -> (r: i128)
    requires
        d > 0,
        n > i128::MIN,
    ensures
        r == spec_ceil_div(n as int, d as int),
{
    if n >= 0 {
        let nn = n as u128;
        let dd = d as u128;
        let q = nn / dd;
        let rem = nn % dd;
        if rem == 0 {
            q as i128
        } else {
            proof {
                lemma_fundamental_div_mod(nn as int, dd as int);
                assert(q < nn) by (nonlinear_arith)
                    requires
                        nn as int == dd as int * (q as int) + (rem as int),
                        rem > 0,
                        dd >= 1,
                        q >= 0,
                ;
            }
            (q as i128) + 1
        }
    } else {
        let m = (-n) as u128;
        let dd = d as u128;
        let q = m / dd;
        let r = -(q as i128);
        proof {
            let mi = -(n as int);
            let di = d as int;
            lemma_fundamental_div_mod(mi, di);
            let qq = mi / di;
            let rr = mi % di;
            if rr == 0 {
                assert(n as int == (-qq) * di + 0) by (nonlinear_arith)
                    requires
                        mi == di * qq + rr,
                        rr == 0,
                        mi == -(n as int),
                ;
                lemma_fundamental_div_mod_converse(n as int, di, -qq, 0);
            } else {
                assert(n as int == (-qq - 1) * di + (di - rr)) by (nonlinear_arith)
                    requires
                        mi == di * qq + rr,
                        mi == -(n as int),
                ;
                lemma_fundamental_div_mod_converse(n as int, di, -qq - 1, di - rr);
            }
        }
        r
    }
}

} // verus!
