//! Three-component vectors over fixed-point scalars.
//!
//! `Vec3` is the executable type; its mathematical view is `V3`, a vector of
//! unbounded integers.  Raw operations (`add3`, `dot_raw`, ...) work on the
//! stored integers without rescaling; `_fixed` operations divide by `SCALE`
//! where a product of two fixed-point numbers needs rescaling.

use crate::fixed::{div_floor, isqrt, isqrt_spec, SCALE};
use vstd::arithmetic::div_mod::{lemma_div_is_ordered, lemma_div_multiples_vanish};
use vstd::prelude::*;

verus! {

/// Bound on vector components accepted by the raw product operations; wide
/// enough for every quantity the renderer forms, and small enough that a dot
/// product of three component products cannot exceed `i128`.
pub const VEC_MAX: i64 = 1152921504606846976;

/// Mathematical model of a vector: unbounded integer components.
pub ghost struct V3 {
    pub x: int,
    pub y: int,
    pub z: int,
}

impl V3 {
    pub open spec fn add3(self, o: V3) -> V3 {
        V3 { x: self.x + o.x, y: self.y + o.y, z: self.z + o.z }
    }

    pub open spec fn sub3(self, o: V3) -> V3 {
        V3 { x: self.x - o.x, y: self.y - o.y, z: self.z - o.z }
    }

    pub open spec fn neg3(self) -> V3 {
        V3 { x: -self.x, y: -self.y, z: -self.z }
    }

    /// Plain integer scaling, no rescaling by `SCALE`.
    pub open spec fn scale_raw(self, k: int) -> V3 {
        V3 { x: self.x * k, y: self.y * k, z: self.z * k }
    }

    /// Raw dot product of the stored integers (twice the scale of its inputs).
    pub open spec fn dot_raw(self, o: V3) -> int {
        self.x * o.x + self.y * o.y + self.z * o.z
    }

    /// Fixed-point scaling by the scalar `k`.
    pub open spec fn scale_fixed(self, k: int) -> V3 {
        V3 {
            x: (self.x * k) / (SCALE as int),
            y: (self.y * k) / (SCALE as int),
            z: (self.z * k) / (SCALE as int),
        }
    }

    /// Component-wise fixed-point product (color attenuation).
    pub open spec fn comp_mul_fixed(self, o: V3) -> V3 {
        V3 {
            x: (self.x * o.x) / (SCALE as int),
            y: (self.y * o.y) / (SCALE as int),
            z: (self.z * o.z) / (SCALE as int),
        }
    }

    /// Fixed-point dot product.
    pub open spec fn dot_fixed(self, o: V3) -> int {
        self.dot_raw(o) / (SCALE as int)
    }

    /// Fixed-point cross product.
    pub open spec fn cross_fixed(self, o: V3) -> V3 {
        V3 {
            x: (self.y * o.z - self.z * o.y) / (SCALE as int),
            y: (self.z * o.x - self.x * o.z) / (SCALE as int),
            z: (self.x * o.y - self.y * o.x) / (SCALE as int),
        }
    }

    /// Length of the stored integer vector: the fixed-point length of the
    /// fixed-point vector, since `dot_raw` carries scale `SCALE * SCALE`.
    pub open spec fn len_fixed(self) -> int {
        isqrt_spec(self.dot_raw(self) as nat) as int
    }

    /// Fixed-point normalization: each component is rescaled by
    /// `SCALE / length`.
    pub open spec fn norm_fixed(self) -> V3 {
        let l = self.len_fixed();
        V3 {
            x: (self.x * (SCALE as int)) / l,
            y: (self.y * (SCALE as int)) / l,
            z: (self.z * (SCALE as int)) / l,
        }
    }

    /// The scatter degeneracy test.  The customary threshold (1e-8) lies
    /// below one fixed-point quantum, so in this representation "near zero"
    /// is exactly zero.
    pub open spec fn near_zero(self) -> bool {
        self.x == 0 && self.y == 0 && self.z == 0
    }

    /// Whether this vector is a color: every channel in `[0, 1]`.
    pub open spec fn is_color(self) -> bool {
        &&& 0 <= self.x <= SCALE as int
        &&& 0 <= self.y <= SCALE as int
        &&& 0 <= self.z <= SCALE as int
    }

    pub open spec fn in_range(self, b: int) -> bool {
        &&& -b <= self.x <= b
        &&& -b <= self.y <= b
        &&& -b <= self.z <= b
    }

    pub open spec fn fits_i64(self) -> bool {
        &&& i64::MIN <= self.x <= i64::MAX
        &&& i64::MIN <= self.y <= i64::MAX
        &&& i64::MIN <= self.z <= i64::MAX
    }
}

/// A raw dot product of a vector with itself is a sum of squares.
pub proof fn lemma_dot_self_nonneg(v: V3)
    ensures
        v.dot_raw(v) >= 0,
        v.x * v.x <= v.dot_raw(v),
        v.y * v.y <= v.dot_raw(v),
        v.z * v.z <= v.dot_raw(v),
{
    assert(v.x * v.x >= 0 && v.y * v.y >= 0 && v.z * v.z >= 0) by (nonlinear_arith);
}

/// A vector that is not degenerate has a squared raw length of at least one.
pub proof fn lemma_dot_self_pos(v: V3)
    requires
        !v.near_zero(),
    ensures
        v.dot_raw(v) >= 1,
{
    lemma_dot_self_nonneg(v);
    if v.x != 0 {
        assert(v.x * v.x >= 1) by (nonlinear_arith)
            requires
                v.x != 0,
        ;
    } else if v.y != 0 {
        assert(v.y * v.y >= 1) by (nonlinear_arith)
            requires
                v.y != 0,
        ;
    } else {
        assert(v.z * v.z >= 1) by (nonlinear_arith)
            requires
                v.z != 0,
        ;
    }
}

/// Bound on a raw dot product from bounds on its factors.
pub proof fn lemma_dot_raw_bound(a: V3, b: V3, m: int, n: int)
    requires
        a.in_range(m),
        b.in_range(n),
        0 <= m,
        0 <= n,
    ensures
        -3 * (m * n) <= a.dot_raw(b) <= 3 * (m * n),
        -(m * n) <= a.x * b.x <= m * n,
        -(m * n) <= a.y * b.y <= m * n,
        -(m * n) <= a.z * b.z <= m * n,
{
    assert(-(m * n) <= a.x * b.x <= m * n) by (nonlinear_arith)
        requires
            -m <= a.x <= m,
            -n <= b.x <= n,
            0 <= m,
            0 <= n,
    ;
    assert(-(m * n) <= a.y * b.y <= m * n) by (nonlinear_arith)
        requires
            -m <= a.y <= m,
            -n <= b.y <= n,
            0 <= m,
            0 <= n,
    ;
    assert(-(m * n) <= a.z * b.z <= m * n) by (nonlinear_arith)
        requires
            -m <= a.z <= m,
            -n <= b.z <= n,
            0 <= m,
            0 <= n,
    ;
}

/// Executable vector of three fixed-point scalars.
#[derive(Clone, Copy, Debug, PartialEq, Eq, Structural)]
pub struct Vec3 {
    pub x: i64,
    pub y: i64,
    pub z: i64,
}

impl View for Vec3 {
    type V = V3;

    open spec fn view(&self) -> V3 {
        V3 { x: self.x as int, y: self.y as int, z: self.z as int }
    }
}

impl Vec3 {
    pub fn new(x: i64, y: i64, z: i64) -> (r: Vec3)
        ensures
            r@ == (V3 { x: x as int, y: y as int, z: z as int }),
    {
        Vec3 { x, y, z }
    }

    pub fn zero() -> (r: Vec3)
        ensures
            r@ == (V3 { x: 0, y: 0, z: 0 }),
    {
        Vec3 { x: 0, y: 0, z: 0 }
    }

    pub fn add(&self, o: &Vec3) -> (r: Vec3)
        requires
            self@.add3(o@).fits_i64(),
        ensures
            r@ == self@.add3(o@),
    {
        Vec3 { x: self.x + o.x, y: self.y + o.y, z: self.z + o.z }
    }

    pub fn sub(&self, o: &Vec3) -> (r: Vec3)
        requires
            self@.sub3(o@).fits_i64(),
        ensures
            r@ == self@.sub3(o@),
    {
        Vec3 { x: self.x - o.x, y: self.y - o.y, z: self.z - o.z }
    }

    pub fn neg(&self) -> (r: Vec3)
        requires
            self@.neg3().fits_i64(),
        ensures
            r@ == self@.neg3(),
    {
        Vec3 { x: -self.x, y: -self.y, z: -self.z }
    }

    /// Fixed-point scalar multiple.
    pub fn scale(&self, k: i64) -> (r: Vec3)
        requires
            self@.scale_fixed(k as int).fits_i64(),
        ensures
            r@ == self@.scale_fixed(k as int),
    {
        Vec3 {
            x: div_floor((self.x as i128) * (k as i128), SCALE as i128) as i64,
            y: div_floor((self.y as i128) * (k as i128), SCALE as i128) as i64,
            z: div_floor((self.z as i128) * (k as i128), SCALE as i128) as i64,
        }
    }

    /// Component-wise fixed-point product.
    pub fn comp_mul(&self, o: &Vec3) -> (r: Vec3)
        requires
            self@.comp_mul_fixed(o@).fits_i64(),
        ensures
            r@ == self@.comp_mul_fixed(o@),
    {
        Vec3 {
            x: div_floor((self.x as i128) * (o.x as i128), SCALE as i128) as i64,
            y: div_floor((self.y as i128) * (o.y as i128), SCALE as i128) as i64,
            z: div_floor((self.z as i128) * (o.z as i128), SCALE as i128) as i64,
        }
    }

    /// Raw dot product of the stored integers, before rescaling.
    pub fn dot_raw_wide(&self, o: &Vec3) -> (r: i128)
        requires
            self@.in_range(VEC_MAX as int),
            o@.in_range(VEC_MAX as int),
        ensures
            r == self@.dot_raw(o@),
    {
        proof {
            lemma_dot_raw_bound(self@, o@, VEC_MAX as int, VEC_MAX as int);
        }
        (self.x as i128) * (o.x as i128) + (self.y as i128) * (o.y as i128) + (self.z as i128)
            * (o.z as i128)
    }

    /// Fixed-point dot product.
    pub fn dot(&self, o: &Vec3) -> (r: i64)
        requires
            self@.in_range(VEC_MAX as int),
            o@.in_range(VEC_MAX as int),
            i64::MIN <= self@.dot_fixed(o@) <= i64::MAX,
        ensures
            r == self@.dot_fixed(o@),
    {
        let raw = self.dot_raw_wide(o);
        div_floor(raw, SCALE as i128) as i64
    }

    /// Fixed-point cross product.
    pub fn cross(&self, o: &Vec3) -> (r: Vec3)
        requires
            self@.in_range(VEC_MAX as int),
            o@.in_range(VEC_MAX as int),
            self@.cross_fixed(o@).fits_i64(),
        ensures
            r@ == self@.cross_fixed(o@),
    {
        proof {
            lemma_dot_raw_bound(self@, o@, VEC_MAX as int, VEC_MAX as int);
            assert(-(VEC_MAX as int) * (VEC_MAX as int) <= (self.y as int) * (o.z as int) <= (
            VEC_MAX as int) * (VEC_MAX as int)) by (nonlinear_arith)
                requires
                    -(VEC_MAX as int) <= self.y as int <= VEC_MAX as int,
                    -(VEC_MAX as int) <= o.z as int <= VEC_MAX as int,
            ;
            assert(-(VEC_MAX as int) * (VEC_MAX as int) <= (self.z as int) * (o.y as int) <= (
            VEC_MAX as int) * (VEC_MAX as int)) by (nonlinear_arith)
                requires
                    -(VEC_MAX as int) <= self.z as int <= VEC_MAX as int,
                    -(VEC_MAX as int) <= o.y as int <= VEC_MAX as int,
            ;
            assert(-(VEC_MAX as int) * (VEC_MAX as int) <= (self.z as int) * (o.x as int) <= (
            VEC_MAX as int) * (VEC_MAX as int)) by (nonlinear_arith)
                requires
                    -(VEC_MAX as int) <= self.z as int <= VEC_MAX as int,
                    -(VEC_MAX as int) <= o.x as int <= VEC_MAX as int,
            ;
            assert(-(VEC_MAX as int) * (VEC_MAX as int) <= (self.x as int) * (o.z as int) <= (
            VEC_MAX as int) * (VEC_MAX as int)) by (nonlinear_arith)
                requires
                    -(VEC_MAX as int) <= self.x as int <= VEC_MAX as int,
                    -(VEC_MAX as int) <= o.z as int <= VEC_MAX as int,
            ;
            assert(-(VEC_MAX as int) * (VEC_MAX as int) <= (self.x as int) * (o.y as int) <= (
            VEC_MAX as int) * (VEC_MAX as int)) by (nonlinear_arith)
                requires
                    -(VEC_MAX as int) <= self.x as int <= VEC_MAX as int,
                    -(VEC_MAX as int) <= o.y as int <= VEC_MAX as int,
            ;
            assert(-(VEC_MAX as int) * (VEC_MAX as int) <= (self.y as int) * (o.x as int) <= (
            VEC_MAX as int) * (VEC_MAX as int)) by (nonlinear_arith)
                requires
                    -(VEC_MAX as int) <= self.y as int <= VEC_MAX as int,
                    -(VEC_MAX as int) <= o.x as int <= VEC_MAX as int,
            ;
        }
        let cx = (self.y as i128) * (o.z as i128) - (self.z as i128) * (o.y as i128);
        let cy = (self.z as i128) * (o.x as i128) - (self.x as i128) * (o.z as i128);
        let cz = (self.x as i128) * (o.y as i128) - (self.y as i128) * (o.x as i128);
        Vec3 {
            x: div_floor(cx, SCALE as i128) as i64,
            y: div_floor(cy, SCALE as i128) as i64,
            z: div_floor(cz, SCALE as i128) as i64,
        }
    }

    /// Fixed-point length.
    pub fn length(&self) -> (r: i64)
        requires
            self@.in_range(VEC_MAX as int),
        ensures
            r == self@.len_fixed(),
            r >= 0,
            r * r <= self@.dot_raw(self@),
            self@.dot_raw(self@) < (r + 1) * (r + 1),
    {
        proof {
            lemma_dot_self_nonneg(self@);
            lemma_dot_raw_bound(self@, self@, VEC_MAX as int, VEC_MAX as int);
        }
        let raw = self.dot_raw_wide(self);
        let r = isqrt(raw as u128);
        proof {
            assert(r * r <= raw as int);
            assert((r as int) * (r as int) < 0x4000000000000000 * 0x4000000000000000) by (nonlinear_arith)
                requires
                    (r as int) * (r as int) <= 3 * ((VEC_MAX as int) * (VEC_MAX as int)),
            ;
            assert((r as int) < 0x4000000000000000) by (nonlinear_arith)
                requires
                    (r as int) * (r as int) < 0x4000000000000000 * 0x4000000000000000,
                    r >= 0,
            ;
        }
        r as i64
    }

    /// Fixed-point normalization.  The result's components all lie in
    /// `[-SCALE, SCALE]`: no component of a vector exceeds its length.
    pub fn normalize(&self) -> (r: Vec3)
        requires
            self@.in_range(VEC_MAX as int),
            !self@.near_zero(),
        ensures
            r@ == self@.norm_fixed(),
            r@.in_range(SCALE as int),
    {
        let l = self.length();
        proof {
            lemma_dot_self_nonneg(self@);
            if l == 0 {
                assert(self@.dot_raw(self@) < 1);
                assert(self@.x * self@.x == 0 ==> self@.x == 0) by (nonlinear_arith);
                assert(self@.y * self@.y == 0 ==> self@.y == 0) by (nonlinear_arith);
                assert(self@.z * self@.z == 0 ==> self@.z == 0) by (nonlinear_arith);
            }
            lemma_norm_component_bound(self@.x, self@, l as int);
            lemma_norm_component_bound(self@.y, self@, l as int);
            lemma_norm_component_bound(self@.z, self@, l as int);
        }
        Vec3 {
            x: div_floor((self.x as i128) * (SCALE as i128), l as i128) as i64,
            y: div_floor((self.y as i128) * (SCALE as i128), l as i128) as i64,
            z: div_floor((self.z as i128) * (SCALE as i128), l as i128) as i64,
        }
    }
}

/// A component rescaled by `SCALE / length` lies in `[-SCALE, SCALE]`,
/// because no component's square exceeds the squared length.
proof fn lemma_norm_component_bound(c: int, v: V3, l: int)
    requires
        l > 0,
        c == v.x || c == v.y || c == v.z,
        l * l <= v.dot_raw(v),
        v.dot_raw(v) < (l + 1) * (l + 1),
    ensures
        -(SCALE as int) <= (c * (SCALE as int)) / l <= SCALE as int,
{
    let s = SCALE as int;
    lemma_dot_self_nonneg(v);
    assert(c * c < (l + 1) * (l + 1));
    assert(-l <= c <= l) by (nonlinear_arith)
        requires
            c * c < (l + 1) * (l + 1),
            l > 0,
    ;
    assert(-(l * s) <= c * s <= l * s) by (nonlinear_arith)
        requires
            -l <= c <= l,
            s > 0,
    ;
    lemma_div_is_ordered(c * s, l * s, l);
    lemma_div_is_ordered(-(l * s), c * s, l);
    lemma_div_multiples_vanish(s, l);
    assert(l * s == s * l) by (nonlinear_arith);
    lemma_div_multiples_vanish(-s, l);
    assert(-(l * s) == l * -s == -s * l) by (nonlinear_arith);
}

} // verus!
