//! Surface materials and their scattering models.
//!
//! A material takes the incoming ray and the intersection record and yields
//! an optional outgoing ray plus an attenuation color.  The randomness a
//! scatter consumes is drawn from a `RandomSource`; each contract states, for
//! every possible draw, how the outgoing ray relates to it.

use crate::fixed::{div_floor, lemma_div_exact_bound, lemma_fmul_unit_interval, SCALE};
use crate::objects::COORD_MAX;
use crate::primitive_types::{min_spec, IsNearZero, Reflect, Refract};
use crate::ray::{HitRecord, HitV, Ray, RayV, DIR_MAX, NORMAL_MAX, ORIGIN_MAX};
use crate::rng::{random_in_unit_sphere, RandomSource};
use crate::vec3::{lemma_dot_raw_bound, Vec3, V3};
use vstd::arithmetic::div_mod::{
    lemma_div_is_ordered, lemma_div_multiples_vanish, lemma_div_pos_is_pos,
};
use vstd::prelude::*;

verus! {

/// Smallest supported refractive index (1/256, in fixed-point): below it
/// the entering ratio `1 / ir` would exceed the largest ratio the refraction
/// routine can keep within the ray-direction range.
pub const IOR_MIN: i64 = 256;

/// Largest supported refractive index (256, in fixed-point): above it the
/// exiting ratio would exceed the largest supported ratio.  That ratio cap
/// is in turn forced by machine limits: scattered directions must stay
/// within `DIR_MAX`, which the intersection quadratic fixes by `i128`
/// headroom.
pub const IOR_MAX: i64 = 16777216;

/// Why a material constructor rejected its parameters.
#[derive(Clone, Copy, Debug, PartialEq, Eq, Structural)]
pub enum MaterialError {
    /// An albedo channel lies outside `[0, 1]`.
    AlbedoOutOfRange,
    /// The fuzziness lies outside `[0, 1]`.
    FuzzinessOutOfRange,
    /// The refractive index lies outside the supported range.
    RefractiveIndexOutOfRange,
}

/// The view of an optional ray.
pub open spec fn ray_opt_view(r: Option<Ray>) -> Option<RayV> {
    match r {
        Some(ray) => Some(ray@),
        None => None,
    }
}

/// A sample from the unit sphere, as the scatter contracts quantify over it.
pub open spec fn unit_sphere_sample(v: V3) -> bool {
    &&& v.dot_raw(v) < (SCALE as int) * (SCALE as int)
    &&& v.in_range(SCALE as int)
}

/// Light scattering at a surface hit.
pub trait Scatter {
    spec fn scatter_wf(&self) -> bool;

    /// How an outcome may relate to the material, for some admissible draw
    /// of randomness.
    spec fn scatter_rel(&self, ray: RayV, rec: HitV, out: Option<RayV>, att: V3) -> bool;

    fn scatter(&self, ray: &Ray, hit_rec: &HitRecord, rng: &mut RandomSource) -> (r: (
        Option<Ray>,
        Vec3,
    ))
        requires
            self.scatter_wf(),
            ray@.wf(),
            !ray@.dir.near_zero(),
            hit_rec@.wf(),
        ensures
            self.scatter_rel(ray@, hit_rec@, ray_opt_view(r.0), r.1@),
            r.1@.is_color(),
            r.0 matches Some(out) ==> out@.origin == hit_rec@.point && out@.wf(),
    ;
}

/// Ideal matte surface.
#[derive(Clone, Copy, Debug)]
pub struct Diffuse {
    pub albedo: Vec3,
}

/// The diffuse scatter direction for the sample `rnd`: the normalized sum of
/// the surface normal and the sample, with a degenerate sum or result
/// replaced by the normal itself.
pub open spec fn diffuse_dir(normal: V3, rnd: V3) -> V3 {
    let sum = normal.add3(rnd);
    if sum.near_zero() {
        normal
    } else {
        let d = sum.norm_fixed();
        if d.near_zero() {
            normal
        } else {
            d
        }
    }
}

impl Diffuse {
    /// A matte material; rejects an albedo outside `[0, 1]^3`.
    pub fn new(albedo: Vec3) -> (r: Result<Diffuse, MaterialError>)
        ensures
            r matches Ok(m) ==> m.albedo == albedo && albedo@.is_color(),
            r matches Err(e) ==> e == MaterialError::AlbedoOutOfRange && !albedo@.is_color(),
    {
        if albedo.x < 0 || albedo.x > SCALE || albedo.y < 0 || albedo.y > SCALE || albedo.z < 0
            || albedo.z > SCALE {
            Err(MaterialError::AlbedoOutOfRange)
        } else {
            Ok(Diffuse { albedo })
        }
    }
}

impl Scatter for Diffuse {
    open spec fn scatter_wf(&self) -> bool {
        self.albedo@.is_color()
    }

    /// Always scatters: for some unit-sphere sample, the outgoing ray leaves
    /// the hit point along `diffuse_dir`; the attenuation is the albedo.
    open spec fn scatter_rel(&self, ray: RayV, rec: HitV, out: Option<RayV>, att: V3) -> bool {
        &&& att == self.albedo@
        &&& exists|rnd: V3|
            unit_sphere_sample(rnd) && out == Some(
                RayV { origin: rec.point, dir: diffuse_dir(rec.normal, rnd) },
            )
    }

    fn scatter(&self, ray: &Ray, hit_rec: &HitRecord, rng: &mut RandomSource) -> (r: (
        Option<Ray>,
        Vec3,
    )) {
        let rnd = random_in_unit_sphere(rng);
        let sum = hit_rec.normal.add(&rnd);
        let dir = if sum.is_near_zero() {
            hit_rec.normal
        } else {
            let d = sum.normalize();
            if d.is_near_zero() {
                hit_rec.normal
            } else {
                d
            }
        };
        let out = Ray { origin: hit_rec.point, direction: dir };
        proof {
            assert(unit_sphere_sample(rnd@) && ray_opt_view(Some(out)) == Some(
                RayV { origin: hit_rec@.point, dir: diffuse_dir(hit_rec@.normal, rnd@) },
            ));
        }
        (Some(out), self.albedo)
    }
}

/// Specular surface with an optional fuzz perturbation.
#[derive(Clone, Copy, Debug)]
pub struct Metal {
    pub albedo: Vec3,
    pub fuzziness: i64,
}

/// The metal scatter direction for the sample `rnd`: the reflection of the
/// normalized incoming direction, perturbed by `fuzziness` times the sample.
pub open spec fn metal_dir(ray: RayV, normal: V3, fuzziness: int, rnd: V3) -> V3 {
    ray.dir.norm_fixed().reflect_fixed(normal).add3(rnd.scale_fixed(fuzziness))
}

impl Metal {
    /// A specular material; rejects an albedo outside `[0, 1]^3` (first) or
    /// a fuzziness outside `[0, 1]`.
    pub fn new(albedo: Vec3, fuzziness: i64) -> (r: Result<Metal, MaterialError>)
        ensures
            r matches Ok(m) ==> m.albedo == albedo && m.fuzziness == fuzziness
                && albedo@.is_color() && 0 <= fuzziness <= SCALE,
            r matches Err(e) ==> (e == MaterialError::AlbedoOutOfRange && !albedo@.is_color()) || (
            e == MaterialError::FuzzinessOutOfRange && albedo@.is_color() && !(0 <= fuzziness
                <= SCALE)),
            r is Err <==> !(albedo@.is_color() && 0 <= fuzziness <= SCALE),
    {
        if albedo.x < 0 || albedo.x > SCALE || albedo.y < 0 || albedo.y > SCALE || albedo.z < 0
            || albedo.z > SCALE {
            Err(MaterialError::AlbedoOutOfRange)
        } else if fuzziness < 0 || fuzziness > SCALE {
            Err(MaterialError::FuzzinessOutOfRange)
        } else {
            Ok(Metal { albedo, fuzziness })
        }
    }
}

impl Scatter for Metal {
    open spec fn scatter_wf(&self) -> bool {
        &&& self.albedo@.is_color()
        &&& 0 <= self.fuzziness <= SCALE
    }

    /// For some unit-sphere sample: if the perturbed reflection points into
    /// the surface (negative dot with the normal) the ray is absorbed;
    /// otherwise it leaves the hit point along the perturbed reflection.
    open spec fn scatter_rel(&self, ray: RayV, rec: HitV, out: Option<RayV>, att: V3) -> bool {
        &&& att == self.albedo@
        &&& exists|rnd: V3|
            unit_sphere_sample(rnd) && {
                let sd = metal_dir(ray, rec.normal, self.fuzziness as int, rnd);
                if sd.dot_raw(rec.normal) < 0 {
                    out == None::<RayV>
                } else {
                    out == Some(RayV { origin: rec.point, dir: sd })
                }
            }
    }

    fn scatter(&self, ray: &Ray, hit_rec: &HitRecord, rng: &mut RandomSource) -> (r: (
        Option<Ray>,
        Vec3,
    )) {
        let unit = ray.direction.normalize();
        proof {
            crate::primitive_types::lemma_reflect_fixed_range(unit@, hit_rec@.normal, 2);
        }
        let refl = unit.reflect(&hit_rec.normal);
        let rnd = random_in_unit_sphere(rng);
        proof {
            crate::primitive_types::lemma_scale_fixed_range(
                rnd@,
                self.fuzziness as int,
                SCALE as int,
                SCALE as int,
                SCALE as int,
            );
        }
        let scattered_direction = refl.add(&rnd.scale(self.fuzziness));
        let d = scattered_direction.dot_raw_wide(&hit_rec.normal);
        let ghost sd = metal_dir(ray@, hit_rec@.normal, self.fuzziness as int, rnd@);
        if d < 0 {
            proof {
                assert(unit_sphere_sample(rnd@) && sd.dot_raw(hit_rec@.normal) < 0
                    && ray_opt_view(None) == None::<RayV>);
            }
            return (None, self.albedo);
        }
        let out = Ray { origin: hit_rec.point, direction: scattered_direction };
        proof {
            assert(unit_sphere_sample(rnd@) && !(sd.dot_raw(hit_rec@.normal) < 0)
                && ray_opt_view(Some(out)) == Some(RayV { origin: hit_rec@.point, dir: sd }));
        }
        (Some(out), self.albedo)
    }
}

/// A metal with zero fuzziness is an exact mirror: whatever the random draw,
/// a scattered ray leaves along the reflection of the normalized incoming
/// direction, unchanged.
pub proof fn lemma_metal_zero_fuzz(m: Metal, ray: RayV, rec: HitV, out: Option<RayV>, att: V3)
    requires
        m.fuzziness == 0,
        m.scatter_rel(ray, rec, out, att),
        out is Some,
    ensures
        out.unwrap().dir == ray.dir.norm_fixed().reflect_fixed(rec.normal),
        out.unwrap().origin == rec.point,
{
    let rnd = choose|rnd: V3|
        unit_sphere_sample(rnd) && {
            let sd = metal_dir(ray, rec.normal, m.fuzziness as int, rnd);
            if sd.dot_raw(rec.normal) < 0 {
                out == None::<RayV>
            } else {
                out == Some(RayV { origin: rec.point, dir: sd })
            }
        };
    let refl = ray.dir.norm_fixed().reflect_fixed(rec.normal);
    assert(rnd.scale_fixed(0) =~= (V3 { x: 0, y: 0, z: 0 })) by {
        assert(rnd.x * 0 == 0 && rnd.y * 0 == 0 && rnd.z * 0 == 0) by (nonlinear_arith);
        assert((0int) / (SCALE as int) == 0) by {
            vstd::arithmetic::div_mod::lemma_div_of0(SCALE as int);
        }
    }
    assert(metal_dir(ray, rec.normal, 0, rnd) =~= refl);
}

/// Dielectric (glass-like) surface.
#[derive(Clone, Copy, Debug)]
pub struct Glass {
    pub ir: i64,
    pub albedo: Vec3,
}

/// Schlick's polynomial approximation of the Fresnel reflectance:
/// `r0 + (1 - r0) (1 - cos)^5` with `r0 = ((1 - n) / (1 + n))^2`, each
/// product rescaled once.
pub open spec fn schlick_spec(cosine: int, ref_idx: int) -> int {
    let s = SCALE as int;
    let r0 = (((s - ref_idx) * (s - ref_idx)) * s) / ((s + ref_idx) * (s + ref_idx));
    let c1 = s - cosine;
    let c2 = (c1 * c1) / s;
    let c4 = (c2 * c2) / s;
    let c5 = (c4 * c1) / s;
    r0 + ((s - r0) * c5) / s
}

/// The cosine of the incidence angle glass uses: the fixed-point dot product
/// of the reversed unit direction with the normal, clamped into `[-1, 1]`
/// (the upper clamp is Snell's `min(.., 1)`, the lower one the guard that
/// stands in for the defined NaN-rejecting comparator).
pub open spec fn glass_cos(unit: V3, normal: V3) -> int {
    let d = unit.neg3().dot_raw(normal) / (SCALE as int);
    if min_spec(d, SCALE as int) < -(SCALE as int) {
        -(SCALE as int)
    } else {
        min_spec(d, SCALE as int)
    }
}

/// The index pair at the struck side: entering uses `(1, ir)`, exiting
/// `(ir, 1)`.
pub open spec fn glass_etas(front_face: bool, ir: int) -> (int, int) {
    if front_face {
        (SCALE as int, ir)
    } else {
        (ir, SCALE as int)
    }
}

/// Whether the hit is beyond the critical angle, so refraction is
/// geometrically impossible: `ratio * sin_theta > 1`.
pub open spec fn glass_tir(unit: V3, normal: V3, front_face: bool, ir: int) -> bool {
    let s = SCALE as int;
    let etas = glass_etas(front_face, ir);
    let ratio = (etas.0 * s) / etas.1;
    let cos = glass_cos(unit, normal);
    let sin = crate::fixed::isqrt_spec((s * s - cos * cos) as nat) as int;
    ratio * sin > s * s
}

/// The glass scatter direction for the uniform draw `draw` in `[0, 1)`:
/// reflect on total internal reflection or a draw below the Schlick
/// reflectance, refract otherwise.
pub open spec fn glass_dir(ray: RayV, rec: HitV, ir: int, draw: int) -> V3 {
    let s = SCALE as int;
    let unit = ray.dir.norm_fixed();
    let etas = glass_etas(rec.front_face, ir);
    let ratio = (etas.0 * s) / etas.1;
    let cos = glass_cos(unit, rec.normal);
    if glass_tir(unit, rec.normal, rec.front_face, ir) || schlick_spec(cos, ratio) > draw {
        unit.reflect_fixed(rec.normal)
    } else {
        unit.refract_spec(rec.normal, etas.0, etas.1)
    }
}

impl Glass {
    /// A dielectric material; rejects an albedo outside `[0, 1]^3` (first)
    /// or a refractive index outside the supported range.
    pub fn new(ir: i64, albedo: Vec3) -> (r: Result<Glass, MaterialError>)
        ensures
            r matches Ok(m) ==> m.ir == ir && m.albedo == albedo && albedo@.is_color() && IOR_MIN
                <= ir <= IOR_MAX,
            r matches Err(e) ==> (e == MaterialError::AlbedoOutOfRange && !albedo@.is_color()) || (
            e == MaterialError::RefractiveIndexOutOfRange && albedo@.is_color() && !(IOR_MIN <= ir
                <= IOR_MAX)),
            r is Err <==> !(albedo@.is_color() && IOR_MIN <= ir <= IOR_MAX),
    {
        if albedo.x < 0 || albedo.x > SCALE || albedo.y < 0 || albedo.y > SCALE || albedo.z < 0
            || albedo.z > SCALE {
            Err(MaterialError::AlbedoOutOfRange)
        } else if ir < IOR_MIN || ir > IOR_MAX {
            Err(MaterialError::RefractiveIndexOutOfRange)
        } else {
            Ok(Glass { ir, albedo })
        }
    }

    /// Schlick reflectance.  For a cosine in `[0, 1]` the result lies in
    /// `[0, 1]`, for every positive index; the upper index bound only keeps
    /// the intermediate products inside `i128`.
    pub fn reflectance(cosine: i64, ref_idx: i64) -> (r: i64)
        requires
            -SCALE <= cosine <= SCALE,
            1 <= ref_idx <= 281474976710656,
        ensures
            r == schlick_spec(cosine as int, ref_idx as int),
            r >= 0,
            cosine >= 0 ==> r <= SCALE,
    {
        let s128 = SCALE as i128;
        let ghost s = SCALE as int;
        proof {
            lemma_schlick_r0_bounds(ref_idx as int);
            assert(0 <= (s - ref_idx as int) * (s - ref_idx as int)
                <= 0x1000000000000000000000000 && 0 < (s + ref_idx as int) * (s + ref_idx as int)
                <= 0x4000000000000000000000000) by (nonlinear_arith)
                requires
                    1 <= ref_idx as int <= 281474976710656,
                    s == 65536,
            ;
        }
        let num = ((SCALE - ref_idx) as i128) * ((SCALE - ref_idx) as i128) * s128;
        let den = ((SCALE + ref_idx) as i128) * ((SCALE + ref_idx) as i128);
        let r0 = div_floor(num, den) as i64;
        let c1 = SCALE - cosine;
        proof {
            lemma_schlick_pow_bounds(cosine as int);
        }
        let c2 = div_floor((c1 as i128) * (c1 as i128), s128) as i64;
        let c4 = div_floor((c2 as i128) * (c2 as i128), s128) as i64;
        let c5 = div_floor((c4 as i128) * (c1 as i128), s128) as i64;
        proof {
            lemma_schlick_tail_bounds(s - r0 as int, c5 as int);
        }
        let tail = div_floor(((SCALE - r0) as i128) * (c5 as i128), s128) as i64;
        r0 + tail
    }
}

/// `r0 = (1 - n)^2 / (1 + n)^2` lies in `[0, 1)` for a positive index.
proof fn lemma_schlick_r0_bounds(n: int)
    requires
        1 <= n <= 281474976710656,
    ensures
        0 <= (((SCALE as int - n) * (SCALE as int - n)) * (SCALE as int)) / ((SCALE as int + n)
            * (SCALE as int + n)) <= SCALE as int,
{
    let s = SCALE as int;
    let num = ((s - n) * (s - n)) * s;
    let den = (s + n) * (s + n);
    assert(0 <= num <= den * s && den > 0) by (nonlinear_arith)
        requires
            n >= 1,
            s == 65536,
            num == ((s - n) * (s - n)) * s,
            den == (s + n) * (s + n),
    ;
    lemma_div_pos_is_pos(num, den);
    lemma_div_is_ordered(num, den * s, den);
    lemma_div_multiples_vanish(s, den);
}

/// The powers of `1 - cos` stay within `[0, 2]`, `[0, 4]`, `[0, 8]`.
proof fn lemma_schlick_pow_bounds(cosine: int)
    requires
        -(SCALE as int) <= cosine <= SCALE as int,
    ensures
        ({
            let s = SCALE as int;
            let c1 = s - cosine;
            let c2 = (c1 * c1) / s;
            let c4 = (c2 * c2) / s;
            let c5 = (c4 * c1) / s;
            &&& 0 <= c2 <= 4 * s
            &&& 0 <= c4 <= 16 * s
            &&& 0 <= c5 <= 32 * s
            &&& (cosine >= 0 ==> c1 <= s && c2 <= s && c4 <= s && c5 <= s)
        }),
{
    let s = SCALE as int;
    let c1 = s - cosine;
    assert(0 <= c1 * c1 <= s * (4 * s)) by (nonlinear_arith)
        requires
            0 <= c1 <= 2 * s,
            s == 65536,
    ;
    lemma_div_exact_bound_nonneg(c1 * c1, 4 * s, s);
    let c2 = (c1 * c1) / s;
    assert(0 <= c2 * c2 <= s * (16 * s)) by (nonlinear_arith)
        requires
            0 <= c2 <= 4 * s,
            s == 65536,
    ;
    lemma_div_exact_bound_nonneg(c2 * c2, 16 * s, s);
    let c4 = (c2 * c2) / s;
    assert(0 <= c4 * c1 <= s * (32 * s)) by (nonlinear_arith)
        requires
            0 <= c4 <= 16 * s,
            0 <= c1 <= 2 * s,
            s == 65536,
    ;
    lemma_div_exact_bound_nonneg(c4 * c1, 32 * s, s);
    if cosine >= 0 {
        lemma_fmul_unit_interval(c1, c1);
        lemma_fmul_unit_interval(c2, c2);
        lemma_fmul_unit_interval(c4, c1);
    }
}

/// Division bound for non-negative dividends.
proof fn lemma_div_exact_bound_nonneg(x: int, q: int, d: int)
    requires
        d > 0,
        0 <= q,
        0 <= x <= d * q,
    ensures
        0 <= x / d <= q,
{
    lemma_div_pos_is_pos(x, d);
    lemma_div_is_ordered(x, d * q, d);
    lemma_div_multiples_vanish(q, d);
}

/// The Schlick tail `(1 - r0) c5 / 1` keeps the sum within `[0, 1]` when
/// the cosine is non-negative, and non-negative in any case.
proof fn lemma_schlick_tail_bounds(one_minus_r0: int, c5: int)
    requires
        0 <= one_minus_r0 <= SCALE as int,
        0 <= c5 <= 32 * (SCALE as int),
    ensures
        0 <= (one_minus_r0 * c5) / (SCALE as int) <= 32 * (SCALE as int),
        c5 <= SCALE as int ==> (one_minus_r0 * c5) / (SCALE as int) <= one_minus_r0,
{
    let s = SCALE as int;
    assert(0 <= one_minus_r0 * c5 <= s * (32 * s)) by (nonlinear_arith)
        requires
            0 <= one_minus_r0 <= s,
            0 <= c5 <= 32 * s,
    ;
    lemma_div_exact_bound_nonneg(one_minus_r0 * c5, 32 * s, s);
    if c5 <= s {
        lemma_fmul_unit_interval(one_minus_r0, c5);
    }
}

impl Scatter for Glass {
    open spec fn scatter_wf(&self) -> bool {
        &&& self.albedo@.is_color()
        &&& IOR_MIN as int <= self.ir <= IOR_MAX as int
    }

    /// Always scatters: for some uniform draw in `[0, 1)`, the outgoing ray
    /// leaves the hit point along `glass_dir` (reflection on total internal
    /// reflection or a draw under the Schlick reflectance, refraction
    /// otherwise); the attenuation is the albedo.
    open spec fn scatter_rel(&self, ray: RayV, rec: HitV, out: Option<RayV>, att: V3) -> bool {
        &&& att == self.albedo@
        &&& exists|draw: int|
            0 <= draw < SCALE as int && out == Some(
                RayV { origin: rec.point, dir: glass_dir(ray, rec, self.ir as int, draw) },
            )
    }

    fn scatter(&self, ray: &Ray, hit_rec: &HitRecord, rng: &mut RandomSource) -> (r: (
        Option<Ray>,
        Vec3,
    )) {
        let s128 = SCALE as i128;
        let unit = ray.direction.normalize();
        let etas: (i64, i64) = if hit_rec.front_face {
            (SCALE, self.ir)
        } else {
            (self.ir, SCALE)
        };
        proof {
            lemma_glass_ratio_bounds(self.ir as int, hit_rec@.front_face);
        }
        let ratio = div_floor((etas.0 as i128) * s128, etas.1 as i128) as i64;
        let neg_unit = unit.neg();
        proof {
            lemma_dot_raw_bound(unit@.neg3(), hit_rec@.normal, SCALE as int, 2 * (SCALE as int));
            assert(3 * ((SCALE as int) * (2 * (SCALE as int))) == (SCALE as int) * (6 * (
            SCALE as int))) by (nonlinear_arith);
            lemma_div_exact_bound(
                unit@.neg3().dot_raw(hit_rec@.normal),
                6 * (SCALE as int),
                SCALE as int,
            );
        }
        let d = div_floor(neg_unit.dot_raw_wide(&hit_rec.normal), s128) as i64;
        let cos_hi = if d < SCALE {
            d
        } else {
            SCALE
        };
        let cos = if cos_hi < -SCALE {
            -SCALE
        } else {
            cos_hi
        };
        proof {
            assert(0 <= (SCALE as int) * (SCALE as int) - (cos as int) * (cos as int) <= (
            SCALE as int) * (SCALE as int)) by (nonlinear_arith)
                requires
                    -(SCALE as int) <= cos as int <= SCALE as int,
                    SCALE == 65536,
            ;
        }
        let sin_u = crate::fixed::isqrt(
            ((SCALE as i128) * (SCALE as i128) - (cos as i128) * (cos as i128)) as u128,
        );
        proof {
            assert((sin_u as int) <= SCALE as int) by (nonlinear_arith)
                requires
                    (sin_u as int) * (sin_u as int) <= (SCALE as int) * (SCALE as int),
                    sin_u >= 0,
                    SCALE == 65536,
            ;
        }
        let sin = sin_u as i64;
        proof {
            assert(0 <= (ratio as int) * (sin as int) <= 16777216 * (SCALE as int))
                by (nonlinear_arith)
                requires
                    0 <= ratio as int <= 16777216,
                    0 <= sin as int <= SCALE as int,
            ;
        }
        let tir = (ratio as i128) * (sin as i128) > s128 * s128;
        let refl = Glass::reflectance(cos, ratio);
        let draw = rng.next_in(0, SCALE);
        let dir = if tir || refl > draw {
            unit.reflect(&hit_rec.normal)
        } else {
            unit.refract(&hit_rec.normal, (etas.0, etas.1))
        };
        let out = Ray { origin: hit_rec.point, direction: dir };
        proof {
            assert(0 <= draw < SCALE as int && ray_opt_view(Some(out)) == Some(
                RayV { origin: hit_rec@.point, dir: glass_dir(ray@, hit_rec@, self.ir as int, draw as int) },
            ));
        }
        (Some(out), self.albedo)
    }
}

/// The refraction ratio of a supported index lies in `[1/256, 256]`, on
/// either side of the surface.
proof fn lemma_glass_ratio_bounds(ir: int, front_face: bool)
    requires
        IOR_MIN as int <= ir <= IOR_MAX as int,
    ensures
        ({
            let etas = glass_etas(front_face, ir);
            256 <= (etas.0 * (SCALE as int)) / etas.1 <= 16777216
        }),
{
    let s = SCALE as int;
    let etas = glass_etas(front_face, ir);
    assert(0 <= etas.0 * s <= etas.1 * 16777216 && etas.1 * 256 <= etas.0 * s)
        by (nonlinear_arith)
        requires
            256 <= ir <= 16777216,
            s == 65536,
            etas.0 == if front_face {
                s
            } else {
                ir
            },
            etas.1 == if front_face {
                ir
            } else {
                s
            },
    ;
    lemma_div_exact_bound_nonneg(etas.0 * s, 16777216, etas.1);
    lemma_div_is_ordered(etas.1 * 256, etas.0 * s, etas.1);
    lemma_div_multiples_vanish(256, etas.1);
}

/// Beyond the critical angle, glass always reflects: whatever the random
/// draw, the outgoing ray is the reflection of the normalized incoming
/// direction.
pub proof fn lemma_glass_total_internal_reflection(
    g: Glass,
    ray: RayV,
    rec: HitV,
    out: Option<RayV>,
    att: V3,
)
    requires
        g.scatter_rel(ray, rec, out, att),
        glass_tir(ray.dir.norm_fixed(), rec.normal, rec.front_face, g.ir as int),
    ensures
        out is Some,
        out.unwrap().dir == ray.dir.norm_fixed().reflect_fixed(rec.normal),
        out.unwrap().origin == rec.point,
{
    let draw = choose|draw: int|
        0 <= draw < SCALE as int && out == Some(
            RayV { origin: rec.point, dir: glass_dir(ray, rec, g.ir as int, draw) },
        );
    assert(glass_dir(ray, rec, g.ir as int, draw) == ray.dir.norm_fixed().reflect_fixed(
        rec.normal,
    ));
}

/// The closed set of materials.
#[derive(Clone, Copy, Debug)]
pub enum Material {
    Diffuse(Diffuse),
    Metal(Metal),
    Glass(Glass),
}

impl Scatter for Material {
    open spec fn scatter_wf(&self) -> bool {
        match self {
            Material::Diffuse(m) => m.scatter_wf(),
            Material::Metal(m) => m.scatter_wf(),
            Material::Glass(m) => m.scatter_wf(),
        }
    }

    open spec fn scatter_rel(&self, ray: RayV, rec: HitV, out: Option<RayV>, att: V3) -> bool {
        match self {
            Material::Diffuse(m) => m.scatter_rel(ray, rec, out, att),
            Material::Metal(m) => m.scatter_rel(ray, rec, out, att),
            Material::Glass(m) => m.scatter_rel(ray, rec, out, att),
        }
    }

    fn scatter(&self, ray: &Ray, hit_rec: &HitRecord, rng: &mut RandomSource) -> (r: (
        Option<Ray>,
        Vec3,
    )) {
        match self {
            Material::Diffuse(m) => m.scatter(ray, hit_rec, rng),
            Material::Metal(m) => m.scatter(ray, hit_rec, rng),
            Material::Glass(m) => m.scatter(ray, hit_rec, rng),
        }
    }
}

} // verus!
