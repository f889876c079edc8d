//! Reflection, refraction and the degeneracy test on vectors.
//!
//! The traits are implemented by `Vec3`; their contracts are stated over the
//! mathematical view `V3`, so any type viewed as a `V3` could implement them.

use crate::fixed::{div_floor, isqrt, isqrt_spec, lemma_div_exact_bound, SCALE};
use crate::vec3::{lemma_dot_raw_bound, Vec3, V3};
use vstd::arithmetic::div_mod::lemma_div_pos_is_pos;
use vstd::prelude::*;

verus! {

/// Bound on the components a reflection accepts (sixteen, in fixed-point):
/// covers unit directions and surface normals with a wide margin.
pub const REFLECT_MAX: i64 = 1048576;

/// Largest supported ratio of refractive indices (256, in fixed-point).
/// The bound is forced by the machine limits downstream: a refracted
/// direction must stay within `DIR_MAX`, which the intersection quadratic
/// fixes by `i128` headroom, and the refracted direction grows linearly
/// with this ratio.
pub const RATIO_MAX: i64 = 16777216;

impl V3 {
    /// Fixed-point mirror reflection about the plane with normal `n`:
    /// `v - 2 (v . n) n`, with the two rescalings fused into one floor
    /// division.  For `n` of squared raw length `SCALE * SCALE` (a unit
    /// normal) this is `reflect_exact` rescaled by `SCALE * SCALE`, up to
    /// that single rounding.
    pub open spec fn reflect_fixed(self, n: V3) -> V3 {
        let d2 = 2 * self.dot_raw(n);
        let s2 = (SCALE as int) * (SCALE as int);
        V3 {
            x: self.x - (d2 * n.x) / s2,
            y: self.y - (d2 * n.y) / s2,
            z: self.z - (d2 * n.z) / s2,
        }
    }

    /// Reflection in exact integer arithmetic, kept homogeneous: the result
    /// carries an extra factor `n . n` instead of dividing by it.
    pub open spec fn reflect_exact(self, n: V3) -> V3 {
        self.scale_raw(n.dot_raw(n)).sub3(n.scale_raw(2 * self.dot_raw(n)))
    }

    /// Fixed-point refraction by Snell's law, for the index pair
    /// `(eta_in, eta_out)`: the component perpendicular to the normal, scaled
    /// by the index ratio, plus the parallel component that restores unit
    /// length.
    pub open spec fn refract_spec(self, n: V3, eta_in: int, eta_out: int) -> V3 {
        let s = SCALE as int;
        let ratio = (eta_in * s) / eta_out;
        let cos = min_spec(self.neg3().dot_raw(n) / s, s);
        let perp = self.add3(n.scale_fixed(cos)).scale_fixed(ratio);
        let k = abs_spec(s * s - perp.dot_raw(perp));
        let par_len = isqrt_spec(k as nat) as int;
        perp.sub3(n.scale_fixed(par_len))
    }
}

pub open spec fn min_spec(a: int, b: int) -> int {
    if a < b {
        a
    } else {
        b
    }
}

pub open spec fn abs_spec(a: int) -> int {
    if a >= 0 {
        a
    } else {
        -a
    }
}

/// Bound on a fixed-point scalar multiple: if the product of the component
/// bound and the scalar bound is at most `SCALE * q`, each rescaled
/// component lies within `q`.
pub proof fn lemma_scale_fixed_range(v: V3, k: int, m: int, kb: int, q: int)
    requires
        v.in_range(m),
        -kb <= k <= kb,
        0 <= m,
        0 <= kb,
        0 <= q,
        m * kb <= (SCALE as int) * q,
    ensures
        v.scale_fixed(k).in_range(q),
{
    let s = SCALE as int;
    assert(-(s * q) <= v.x * k <= s * q) by (nonlinear_arith)
        requires
            -m <= v.x <= m,
            -kb <= k <= kb,
            0 <= m,
            0 <= kb,
            m * kb <= s * q,
    ;
    assert(-(s * q) <= v.y * k <= s * q) by (nonlinear_arith)
        requires
            -m <= v.y <= m,
            -kb <= k <= kb,
            0 <= m,
            0 <= kb,
            m * kb <= s * q,
    ;
    assert(-(s * q) <= v.z * k <= s * q) by (nonlinear_arith)
        requires
            -m <= v.z <= m,
            -kb <= k <= kb,
            0 <= m,
            0 <= kb,
            m * kb <= s * q,
    ;
    lemma_div_exact_bound(v.x * k, q, s);
    lemma_div_exact_bound(v.y * k, q, s);
    lemma_div_exact_bound(v.z * k, q, s);
}

/// Bound on a fixed-point cross product: if twice the product of the two
/// component bounds is at most `SCALE * q`, each component lies within `q`.
pub proof fn lemma_cross_fixed_range(a: V3, b: V3, m: int, n: int, q: int)
    requires
        a.in_range(m),
        b.in_range(n),
        0 <= m,
        0 <= n,
        0 <= q,
        2 * (m * n) <= (SCALE as int) * q,
    ensures
        a.cross_fixed(b).in_range(q),
{
    let s = SCALE as int;
    lemma_cross_term(a.y, b.z, a.z, b.y, m, n, q);
    lemma_cross_term(a.z, b.x, a.x, b.z, m, n, q);
    lemma_cross_term(a.x, b.y, a.y, b.x, m, n, q);
}

proof fn lemma_cross_term(p: int, r: int, t: int, u: int, m: int, n: int, q: int)
    requires
        -m <= p <= m,
        -m <= t <= m,
        -n <= r <= n,
        -n <= u <= n,
        0 <= m,
        0 <= n,
        0 <= q,
        2 * (m * n) <= (SCALE as int) * q,
    ensures
        -q <= (p * r - t * u) / (SCALE as int) <= q,
{
    let s = SCALE as int;
    assert(-(s * q) <= p * r - t * u <= s * q) by (nonlinear_arith)
        requires
            -m <= p <= m,
            -m <= t <= m,
            -n <= r <= n,
            -n <= u <= n,
            0 <= m,
            0 <= n,
            2 * (m * n) <= s * q,
    ;
    lemma_div_exact_bound(p * r - t * u, q, s);
}

/// Bound on a fixed-point reflection when both inputs are within `mb` times
/// the unit: each correction term is within `6 mb^3` units, so the result is
/// within `mb + 6 mb^3` units.
pub proof fn lemma_reflect_fixed_range(v: V3, n: V3, mb: int)
    requires
        v.in_range(mb * (SCALE as int)),
        n.in_range(mb * (SCALE as int)),
        0 <= mb,
    ensures
        v.reflect_fixed(n).in_range((mb + 6 * (mb * (mb * mb))) * (SCALE as int)),
        -(6 * (mb * (mb * mb)) * (SCALE as int)) <= (2 * v.dot_raw(n) * n.x) / ((SCALE as int)
            * (SCALE as int)) <= 6 * (mb * (mb * mb)) * (SCALE as int),
        -(6 * (mb * (mb * mb)) * (SCALE as int)) <= (2 * v.dot_raw(n) * n.y) / ((SCALE as int)
            * (SCALE as int)) <= 6 * (mb * (mb * mb)) * (SCALE as int),
        -(6 * (mb * (mb * mb)) * (SCALE as int)) <= (2 * v.dot_raw(n) * n.z) / ((SCALE as int)
            * (SCALE as int)) <= 6 * (mb * (mb * mb)) * (SCALE as int),
        -(((SCALE as int) * (SCALE as int)) * (6 * (mb * (mb * mb)) * (SCALE as int))) <= 2
            * v.dot_raw(n) * n.x <= ((SCALE as int) * (SCALE as int)) * (6 * (mb * (mb * mb)) * (
        SCALE as int)),
        -(((SCALE as int) * (SCALE as int)) * (6 * (mb * (mb * mb)) * (SCALE as int))) <= 2
            * v.dot_raw(n) * n.y <= ((SCALE as int) * (SCALE as int)) * (6 * (mb * (mb * mb)) * (
        SCALE as int)),
        -(((SCALE as int) * (SCALE as int)) * (6 * (mb * (mb * mb)) * (SCALE as int))) <= 2
            * v.dot_raw(n) * n.z <= ((SCALE as int) * (SCALE as int)) * (6 * (mb * (mb * mb)) * (
        SCALE as int)),
{
    let s = SCALE as int;
    let m = mb * s;
    lemma_dot_raw_bound(v, n, m, m);
    let d = v.dot_raw(n);
    let q = 6 * (mb * (mb * mb)) * s;
    assert(s * s > 0 && 0 <= q) by (nonlinear_arith)
        requires
            s == 65536,
            0 <= mb,
            q == 6 * (mb * (mb * mb)) * s,
    ;
    lemma_reflect_term_range(d, n.x, mb);
    lemma_reflect_term_range(d, n.y, mb);
    lemma_reflect_term_range(d, n.z, mb);
    assert(m + q == (mb + 6 * (mb * (mb * mb))) * s) by (nonlinear_arith)
        requires
            m == mb * s,
            q == 6 * (mb * (mb * mb)) * s,
    ;
}

proof fn lemma_reflect_term_range(d: int, nc: int, mb: int)
    requires
        -3 * ((mb * (SCALE as int)) * (mb * (SCALE as int))) <= d <= 3 * ((mb * (SCALE as int))
            * (mb * (SCALE as int))),
        -(mb * (SCALE as int)) <= nc <= mb * (SCALE as int),
        0 <= mb,
    ensures
        -(6 * (mb * (mb * mb)) * (SCALE as int)) <= (2 * d * nc) / ((SCALE as int) * (
        SCALE as int)) <= 6 * (mb * (mb * mb)) * (SCALE as int),
        -(((SCALE as int) * (SCALE as int)) * (6 * (mb * (mb * mb)) * (SCALE as int))) <= 2 * d
            * nc <= ((SCALE as int) * (SCALE as int)) * (6 * (mb * (mb * mb)) * (SCALE as int)),
{
    let s = SCALE as int;
    let q = 6 * (mb * (mb * mb)) * s;
    assert(-((s * s) * q) <= 2 * d * nc <= (s * s) * q && 0 <= q && s * s > 0)
        by (nonlinear_arith)
        requires
            -3 * ((mb * s) * (mb * s)) <= d <= 3 * ((mb * s) * (mb * s)),
            -(mb * s) <= nc <= mb * s,
            0 <= mb,
            s == 65536,
            q == 6 * (mb * (mb * mb)) * s,
    ;
    lemma_div_exact_bound(2 * d * nc, q, s * s);
}

/// Whether a vector is degenerate (all components below the fixed epsilon).
pub trait IsNearZero: View<V = V3> {
    fn is_near_zero(&self) -> (r: bool)
        ensures
            r == self@.near_zero(),
    ;
}

impl IsNearZero for Vec3 {
    fn is_near_zero(&self) -> (r: bool) {
        self.x == 0 && self.y == 0 && self.z == 0
    }
}

/// Mirror reflection about the plane whose normal is `criteria`.
pub trait Reflect: View<V = V3> + Sized {
    fn reflect(&self, criteria: &Self) -> (r: Self)
        requires
            self@.in_range(REFLECT_MAX as int),
            criteria@.in_range(REFLECT_MAX as int),
        ensures
            r@ == self@.reflect_fixed(criteria@),
            r@.in_range(24592 * (SCALE as int)),
    ;
}

impl Reflect for Vec3 {
    fn reflect(&self, criteria: &Vec3) -> (r: Vec3) {
        proof {
            assert(REFLECT_MAX as int == 16 * (SCALE as int));
            lemma_reflect_fixed_range(self@, criteria@, 16);
            lemma_dot_raw_bound(self@, criteria@, REFLECT_MAX as int, REFLECT_MAX as int);
            assert(3 * ((REFLECT_MAX as int) * (REFLECT_MAX as int)) < 0x10000000000000000)
                by (nonlinear_arith)
                requires
                    REFLECT_MAX == 1048576,
            ;
            assert(((SCALE as int) * (SCALE as int)) * (6 * (16 * (16 * 16)) * (SCALE as int))
                < 0x1000000000000000000000000) by (nonlinear_arith)
                requires
                    SCALE == 65536,
            ;
        }
        let d2: i128 = 2 * self.dot_raw_wide(criteria);
        let s2: i128 = (SCALE as i128) * (SCALE as i128);
        Vec3 {
            x: self.x - div_floor(d2 * (criteria.x as i128), s2) as i64,
            y: self.y - div_floor(d2 * (criteria.y as i128), s2) as i64,
            z: self.z - div_floor(d2 * (criteria.z as i128), s2) as i64,
        }
    }
}

/// Refraction by Snell's law with the index pair `(eta_in, eta_out)`.
pub trait Refract: View<V = V3> + Sized {
    fn refract(&self, normal: &Self, irs: (i64, i64)) -> (r: Self)
        requires
            self@.in_range(2 * (SCALE as int)),
            normal@.in_range(2 * (SCALE as int)),
            0 <= irs.0,
            1 <= irs.1,
            ((irs.0 as int) * (SCALE as int)) / (irs.1 as int) <= RATIO_MAX as int,
        ensures
            r@ == self@.refract_spec(normal@, irs.0 as int, irs.1 as int),
            r@.in_range(30857 * (SCALE as int)),
    ;
}

impl Refract for Vec3 {
    fn refract(&self, normal: &Vec3, irs: (i64, i64)) -> (r: Vec3) {
        let s = SCALE as i128;
        let ratio_wide = div_floor((irs.0 as i128) * s, irs.1 as i128);
        proof {
            assert((irs.0 as int) * (SCALE as int) >= 0) by (nonlinear_arith)
                requires
                    irs.0 >= 0,
            ;
            lemma_div_pos_is_pos((irs.0 as int) * (SCALE as int), irs.1 as int);
        }
        let ratio = ratio_wide as i64;
        let neg_self = self.neg();
        proof {
            lemma_dot_raw_bound(self@.neg3(), normal@, 2 * (SCALE as int), 2 * (SCALE as int));
            assert(3 * ((2 * (SCALE as int)) * (2 * (SCALE as int))) == (SCALE as int) * (12 * (
            SCALE as int))) by (nonlinear_arith);
            lemma_div_exact_bound(
                self@.neg3().dot_raw(normal@),
                12 * (SCALE as int),
                SCALE as int,
            );
        }
        let d = div_floor(neg_self.dot_raw_wide(normal), s);
        let cos: i64 = if d < SCALE as i128 {
            d as i64
        } else {
            SCALE
        };
        proof {
            assert((2 * (SCALE as int)) * (12 * (SCALE as int)) <= (SCALE as int) * (24 * (
            SCALE as int))) by (nonlinear_arith);
            lemma_scale_fixed_range(
                normal@,
                cos as int,
                2 * (SCALE as int),
                12 * (SCALE as int),
                24 * (SCALE as int),
            );
        }
        let inner = self.add(&normal.scale(cos));
        proof {
            assert((26 * (SCALE as int)) * (256 * (SCALE as int)) <= (SCALE as int) * (6656 * (
            SCALE as int))) by (nonlinear_arith);
            lemma_scale_fixed_range(
                inner@,
                ratio as int,
                26 * (SCALE as int),
                256 * (SCALE as int),
                6656 * (SCALE as int),
            );
        }
        let perp = inner.scale(ratio);
        proof {
            lemma_dot_raw_bound(perp@, perp@, 6656 * (SCALE as int), 6656 * (SCALE as int));
            assert(3 * ((6656 * (SCALE as int)) * (6656 * (SCALE as int))) == 132907008 * ((
            SCALE as int) * (SCALE as int))) by (nonlinear_arith);
        }
        let pp = perp.dot_raw_wide(&perp);
        let diff = s * s - pp;
        let k = if diff >= 0 {
            diff
        } else {
            -diff
        };
        let par_len_wide = isqrt(k as u128);
        proof {
            assert((k as int) <= 132907009 * ((SCALE as int) * (SCALE as int)));
            assert((par_len_wide as int) < 11529 * (SCALE as int)) by (nonlinear_arith)
                requires
                    (par_len_wide as int) * (par_len_wide as int) <= 132907009 * ((SCALE as int)
                        * (SCALE as int)),
                    par_len_wide >= 0,
                    SCALE == 65536,
            ;
        }
        let par_len = par_len_wide as i64;
        proof {
            assert((2 * (SCALE as int)) * (11529 * (SCALE as int)) <= (SCALE as int) * (23058 * (
            SCALE as int))) by (nonlinear_arith);
            lemma_scale_fixed_range(
                normal@,
                par_len as int,
                2 * (SCALE as int),
                11529 * (SCALE as int),
                23058 * (SCALE as int),
            );
        }
        perp.sub(&normal.scale(par_len))
    }
}

/// Expansion of one squared component of an exact reflection.
proof fn lemma_reflect_sq_expand(vi: int, ni: int, b: int, c: int)
    ensures
        (vi * c - ni * (2 * b)) * (vi * c - ni * (2 * b)) == (c * c) * (vi * vi) - (4 * (b * c))
            * (vi * ni) + (4 * (b * b)) * (ni * ni),
{
    let x = vi * c;
    let y = ni * (2 * b);
    assert((x - y) * (x - y) == x * x - 2 * (x * y) + y * y) by (nonlinear_arith);
    assert(x * x == (c * c) * (vi * vi)) by (nonlinear_arith)
        requires
            x == vi * c,
    ;
    assert(2 * (x * y) == (4 * (b * c)) * (vi * ni)) by (nonlinear_arith)
        requires
            x == vi * c,
            y == ni * (2 * b),
    ;
    assert(y * y == (4 * (b * b)) * (ni * ni)) by (nonlinear_arith)
        requires
            y == ni * (2 * b),
    ;
}

/// In exact arithmetic, reflection preserves squared length: stated
/// homogeneously, the squared raw length of `reflect_exact(v, n)` equals
/// `|n|^4 |v|^2`, for every `v` and `n`.  For a unit normal (`|n|^2 == 1`)
/// this says precisely that reflection preserves the length of `v`.
pub proof fn lemma_reflect_preserves_length(v: V3, n: V3)
    ensures
        v.reflect_exact(n).dot_raw(v.reflect_exact(n)) == (n.dot_raw(n) * n.dot_raw(n))
            * v.dot_raw(v),
{
    let a = v.dot_raw(v);
    let b = v.dot_raw(n);
    let c = n.dot_raw(n);
    let r = v.reflect_exact(n);
    assert(r.x == v.x * c - n.x * (2 * b));
    assert(r.y == v.y * c - n.y * (2 * b));
    assert(r.z == v.z * c - n.z * (2 * b));
    lemma_reflect_sq_expand(v.x, n.x, b, c);
    lemma_reflect_sq_expand(v.y, n.y, b, c);
    lemma_reflect_sq_expand(v.z, n.z, b, c);
    assert((c * c) * (v.x * v.x) + (c * c) * (v.y * v.y) + (c * c) * (v.z * v.z) == (c * c) * a)
        by (nonlinear_arith)
        requires
            a == v.x * v.x + v.y * v.y + v.z * v.z,
    ;
    assert((4 * (b * c)) * (v.x * n.x) + (4 * (b * c)) * (v.y * n.y) + (4 * (b * c)) * (v.z * n.z)
        == (4 * (b * c)) * b) by (nonlinear_arith)
        requires
            b == v.x * n.x + v.y * n.y + v.z * n.z,
    ;
    assert((4 * (b * b)) * (n.x * n.x) + (4 * (b * b)) * (n.y * n.y) + (4 * (b * b)) * (n.z * n.z)
        == (4 * (b * b)) * c) by (nonlinear_arith)
        requires
            c == n.x * n.x + n.y * n.y + n.z * n.z,
    ;
    assert((c * c) * a - (4 * (b * c)) * b + (4 * (b * b)) * c == (c * c) * a)
        by (nonlinear_arith);
}

} // verus!
