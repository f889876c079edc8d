//! Fixed-point scalar arithmetic.
//!
//! A scalar is an `i64` counting units of `1/SCALE`; `SCALE` itself therefore
//! represents the real number one.  All rounding is toward negative infinity
//! (floor), which coincides with Verus's mathematical `/` for positive
//! divisors, so contracts can state results with plain integer division.

use vstd::arithmetic::div_mod::{
    lemma_div_is_ordered, lemma_div_multiples_vanish, lemma_fundamental_div_mod,
    lemma_fundamental_div_mod_converse,
};
use vstd::prelude::*;

verus! {

/// Number of fixed-point units in the real number one.
pub const SCALE: i64 = 65536;

/// Floor of `a / b` for a positive divisor, as Verus's Euclidean `/` computes it.
pub fn div_floor(a: i128, b: i128) -> (r: i128)
    requires
        b > 0,
        a > i128::MIN,
    ensures
        r == a as int / b as int,
{
    if a >= 0 {
        a / b
    } else {
        let m = -a;
        let q = m / b;
        let rem = m % b;
        proof {
            lemma_fundamental_div_mod(m as int, b as int);
            if rem == 0 {
                assert(a as int == (-(q as int)) * (b as int) + 0) by (nonlinear_arith)
                    requires
                        m as int == (b as int) * (q as int) + 0,
                        a as int == -(m as int),
                ;
                lemma_fundamental_div_mod_converse(a as int, b as int, -(q as int), 0);
            } else {
                assert(a as int == (-(q as int) - 1) * (b as int) + ((b - rem) as int))
                    by (nonlinear_arith)
                    requires
                        m as int == (b as int) * (q as int) + (rem as int),
                        a as int == -(m as int),
                ;
                lemma_fundamental_div_mod_converse(
                    a as int,
                    b as int,
                    -(q as int) - 1,
                    b - rem,
                );
            }
        }
        if rem == 0 {
            -q
        } else {
            -q - 1
        }
    }
}

/// Product of two scalars, rescaled back: the fixed-point multiply.
pub open spec fn fmul_spec(a: int, b: int) -> int {
    (a * b) / (SCALE as int)
}

/// Fixed-point multiply; exact floor of the rescaled product.
pub fn fmul(a: i64, b: i64) -> (r: i64)
    requires
        i64::MIN <= fmul_spec(a as int, b as int) <= i64::MAX,
    ensures
        r == fmul_spec(a as int, b as int),
{
    let p: i128 = (a as i128) * (b as i128);
    let q = div_floor(p, SCALE as i128);
    q as i64
}

/// A product of scalars in `[0, SCALE]` stays in `[0, SCALE]`: multiplying
/// by a number at most one never increases magnitude.
pub proof fn lemma_fmul_unit_interval(a: int, b: int)
    requires
        0 <= a <= SCALE as int,
        0 <= b <= SCALE as int,
    ensures
        0 <= fmul_spec(a, b) <= a,
        fmul_spec(a, b) <= SCALE as int,
{
    let s = SCALE as int;
    assert(0 <= a * b <= a * s) by (nonlinear_arith)
        requires
            0 <= a,
            0 <= b <= s,
    ;
    lemma_div_is_ordered(0, a * b, s);
    lemma_div_is_ordered(a * b, a * s, s);
    assert((a * s) / s == a) by (nonlinear_arith)
        requires
            s > 0,
    ;
}

/// If `x` lies within `d * q` of zero, its quotient by `d` lies within `q`.
pub proof fn lemma_div_exact_bound(x: int, q: int, d: int)
    requires
        d > 0,
        0 <= q,
        -(d * q) <= x <= d * q,
    ensures
        -q <= x / d <= q,
{
    lemma_div_is_ordered(x, d * q, d);
    lemma_div_is_ordered(-(d * q), x, d);
    lemma_div_multiples_vanish(q, d);
    lemma_div_multiples_vanish(-q, d);
    assert(d * (-q) == -(d * q)) by (nonlinear_arith);
}

/// Integer square root, defined by counting up; `lemma_isqrt_bounds` gives
/// the usual characterization.
pub open spec fn isqrt_spec(x: nat) -> nat
    decreases x,
{
    if x == 0 {
        0
    } else {
        let r = isqrt_spec((x - 1) as nat);
        if (r + 1) * (r + 1) <= x {
            r + 1
        } else {
            r
        }
    }
}

pub proof fn lemma_isqrt_bounds(x: nat)
    ensures
        isqrt_spec(x) * isqrt_spec(x) <= x,
        x < (isqrt_spec(x) + 1) * (isqrt_spec(x) + 1),
    decreases x,
{
    let s = isqrt_spec(x);
    if x == 0 {
        assert(s == 0);
        assert(s * s <= x && x < (s + 1) * (s + 1)) by (nonlinear_arith)
            requires
                x == 0,
                s == 0,
        ;
    } else {
        lemma_isqrt_bounds((x - 1) as nat);
        let r = isqrt_spec((x - 1) as nat);
        if (r + 1) * (r + 1) <= x {
            assert(s == r + 1);
            assert(x - 1 < (r + 1) * (r + 1));
            assert(s * s <= x && x < (s + 1) * (s + 1)) by (nonlinear_arith)
                requires
                    s == r + 1,
                    (r + 1) * (r + 1) <= x,
                    x <= (r + 1) * (r + 1),
                    r >= 0,
            ;
        } else {
            assert(s == r);
            assert(s * s <= x && x < (s + 1) * (s + 1)) by (nonlinear_arith)
                requires
                    s == r,
                    r * r <= x - 1,
                    !((r + 1) * (r + 1) <= x),
            ;
        }
    }
}

/// The characterization pins the square root down uniquely.
pub proof fn lemma_isqrt_unique(x: nat, r: nat)
    requires
        r * r <= x,
        x < (r + 1) * (r + 1),
    ensures
        r == isqrt_spec(x),
{
    lemma_isqrt_bounds(x);
    let s = isqrt_spec(x);
    assert(r == s) by (nonlinear_arith)
        requires
            r * r <= x,
            x < (r + 1) * (r + 1),
            s * s <= x,
            x < (s + 1) * (s + 1),
            r >= 0,
            s >= 0,
    ;
}

/// Integer square root by binary search.
pub fn isqrt(x: u128) -> (r: u128)
    ensures
        r == isqrt_spec(x as nat),
        r * r <= x,
        x < (r + 1) * (r + 1),
{
    let mut lo: u128 = 0;
    let mut hi: u128 = 18446744073709551616;
    proof {
        assert(x < (hi as int) * (hi as int)) by (nonlinear_arith)
            requires
                hi == 18446744073709551616,
                x <= u128::MAX,
        ;
    }
    while lo + 1 < hi
        invariant
            lo < hi,
            hi <= 18446744073709551616,
            (lo as int) * (lo as int) <= x,
            x < (hi as int) * (hi as int),
        decreases hi - lo,
    {
        let mid = lo + (hi - lo) / 2;
        proof {
            assert(mid * mid <= u128::MAX) by (nonlinear_arith)
                requires
                    mid < 18446744073709551616,
            ;
        }
        if mid * mid <= x {
            lo = mid;
        } else {
            hi = mid;
        }
    }
    proof {
        lemma_isqrt_unique(x as nat, lo as nat);
    }
    lo
}

} // verus!
