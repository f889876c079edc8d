//! Rays, intersection records, and the recursive path-color resolver.

use crate::fixed::{lemma_div_exact_bound, lemma_fmul_unit_interval, SCALE};
use crate::materials::{Material, Scatter};
use crate::primitive_types::IsNearZero;
use crate::objects::{object_views, scene_hit_spec, Hit, Object, ObjectV};
use crate::rng::RandomSource;
use crate::vec3::{Vec3, V3, VEC_MAX};
use vstd::prelude::*;

verus! {

/// Bound on the components of a ray origin: camera origins with their lens
/// offsets, and hit points accepted by the intersection guard, stay within
/// it.
pub const ORIGIN_MAX: i64 = 536870912;

/// Bound on the components of a ray direction: camera rays are sums of a few
/// camera vectors, scattered rays are near unit length.
pub const DIR_MAX: i64 = 2147483648;

/// Bound on the components of a stored surface normal (twice the unit, to
/// absorb rounding in the rescaling by the radius).
pub const NORMAL_MAX: i64 = 131072;

/// Lower end of the intersection interval used by the color resolver: the
/// shadow-acne epsilon, one fixed-point step above 0.001.
pub const T_EPS: i64 = 66;

/// Upper end of the intersection interval used by the color resolver; hits
/// beyond it count as misses.
pub const T_FAR: i64 = 1099511627776;

/// Mathematical model of a ray.
pub ghost struct RayV {
    pub origin: V3,
    pub dir: V3,
}

impl RayV {
    /// The point `origin + t * dir`.
    pub open spec fn at_spec(self, t: int) -> V3 {
        self.origin.add3(self.dir.scale_fixed(t))
    }

    /// Rays the renderer forms: origin and direction within the fixed-point
    /// working range.
    pub open spec fn wf(self) -> bool {
        &&& self.origin.in_range(ORIGIN_MAX as int)
        &&& self.dir.in_range(DIR_MAX as int)
    }
}

/// A half-line from `origin` along `direction` (not necessarily unit).
#[derive(Clone, Copy, Debug)]
pub struct Ray {
    pub origin: Vec3,
    pub direction: Vec3,
}

impl View for Ray {
    type V = RayV;

    open spec fn view(&self) -> RayV {
        RayV { origin: self.origin@, dir: self.direction@ }
    }
}

impl Ray {
    /// The point at parameter `t` along the ray.
    pub fn at(&self, t: i64) -> (r: Vec3)
        requires
            self@.origin.in_range(ORIGIN_MAX as int),
            self@.dir.in_range(DIR_MAX as int),
            0 <= t <= T_FAR,
        ensures
            r@ == self@.at_spec(t as int),
            r@.in_range(36028797018963968 + ORIGIN_MAX as int),
    {
        proof {
            crate::primitive_types::lemma_scale_fixed_range(
                self@.dir,
                t as int,
                DIR_MAX as int,
                T_FAR as int,
                36028797018963968,
            );
            assert((DIR_MAX as int) * (T_FAR as int) <= (SCALE as int) * 36028797018963968)
                by (nonlinear_arith)
                requires
                    DIR_MAX == 2147483648,
                    T_FAR == 1099511627776,
                    SCALE == 65536,
            ;
        }
        self.origin.add(&self.direction.scale(t))
    }
}

/// Mathematical model of an intersection record.
pub ghost struct HitV {
    pub point: V3,
    pub normal: V3,
    pub t: int,
    pub front_face: bool,
    pub material: int,
}

impl HitV {
    /// The record with its normal oriented against the incoming ray:
    /// `front_face` records whether the ray met the outward side, and the
    /// stored normal is flipped to the met side.  The raw dot product has the
    /// sign of the mathematical one, so the test is exact.
    pub open spec fn with_face_normal(self, ray: RayV, outward: V3) -> HitV {
        let ff = ray.dir.dot_raw(outward) < 0;
        HitV {
            normal: if ff {
                outward
            } else {
                outward.neg3()
            },
            front_face: ff,
            ..self
        }
    }

    /// Records the intersection routines produce: the point and normal are
    /// bounded and the parameter lies in the search interval.
    pub open spec fn wf(self) -> bool {
        &&& self.point.in_range(ORIGIN_MAX as int)
        &&& self.normal.in_range(NORMAL_MAX as int)
        &&& 0 <= self.t <= T_FAR
    }
}

/// Scratch value carrying one intersection: hit point, oriented surface
/// normal, ray parameter, struck side, and the index of the material in the
/// scene's arena.
#[derive(Clone, Copy, Debug)]
pub struct HitRecord {
    pub point: Vec3,
    pub normal: Vec3,
    pub t: i64,
    pub front_face: bool,
    pub material: usize,
}

impl View for HitRecord {
    type V = HitV;

    open spec fn view(&self) -> HitV {
        HitV {
            point: self.point@,
            normal: self.normal@,
            t: self.t as int,
            front_face: self.front_face,
            material: self.material as int,
        }
    }
}

impl HitRecord {
    /// A blank record referring to the given material slot.
    pub fn new(material: usize) -> (r: HitRecord)
        ensures
            r@ == (HitV {
                point: V3 { x: 0, y: 0, z: 0 },
                normal: V3 { x: 0, y: 0, z: 0 },
                t: 0,
                front_face: true,
                material: material as int,
            }),
    {
        HitRecord {
            point: Vec3::zero(),
            normal: Vec3::zero(),
            t: 0,
            front_face: true,
            material,
        }
    }

    /// Orient the stored normal against the incoming ray.
    pub fn set_face_normal(&mut self, ray: &Ray, outward_normal: Vec3)
        requires
            ray@.dir.in_range(VEC_MAX as int),
            outward_normal@.in_range(VEC_MAX as int),
        ensures
            final(self)@ == old(self)@.with_face_normal(ray@, outward_normal@),
    {
        let d = ray.direction.dot_raw_wide(&outward_normal);
        self.front_face = d < 0;
        if self.front_face {
            self.normal = outward_normal;
        } else {
            self.normal = outward_normal.neg();
        }
    }
}

/// An oriented record's normal opposes the incoming ray: flipping the
/// outward normal to the struck side makes its dot product with the ray
/// direction non-positive, and `front_face` records exactly whether the ray
/// approached from outside.
pub proof fn lemma_face_normal_opposes_ray(rec: HitV, ray: RayV, outward: V3)
    ensures
        ray.dir.dot_raw(rec.with_face_normal(ray, outward).normal) <= 0,
        rec.with_face_normal(ray, outward).front_face == (ray.dir.dot_raw(outward) < 0),
{
    let flipped = rec.with_face_normal(ray, outward);
    if !(ray.dir.dot_raw(outward) < 0) {
        assert(flipped.normal == outward.neg3());
        assert(ray.dir.dot_raw(outward.neg3()) == -ray.dir.dot_raw(outward)) by (nonlinear_arith);
    }
}

/// The color black: the value of an exhausted or absorbed path.
pub open spec fn black() -> V3 {
    V3 { x: 0, y: 0, z: 0 }
}

/// The background gradient: interpolate between white below and sky blue
/// above, by the vertical component of the normalized direction.  Sky blue
/// is `(0.5, 0.7, 1.0)`, its middle channel rounded down to a fixed-point
/// value.
pub open spec fn background_spec(dir: V3) -> V3 {
    let s = SCALE as int;
    let t = (dir.norm_fixed().y + s) / 2;
    let white = V3 { x: s, y: s, z: s };
    let sky = V3 { x: 32768, y: 45875, z: 65536 };
    white.scale_fixed(s - t).add3(sky.scale_fixed(t))
}

/// A blend of two colors with weights `1 - t` and `t` is a color.
proof fn lemma_color_lerp_bounds(w: V3, sky: V3, t: int)
    requires
        w.is_color(),
        sky.is_color(),
        0 <= t <= SCALE as int,
    ensures
        w.scale_fixed(SCALE as int - t).add3(sky.scale_fixed(t)).is_color(),
{
    let s = SCALE as int;
    lemma_lerp_channel(w.x, sky.x, t);
    lemma_lerp_channel(w.y, sky.y, t);
    lemma_lerp_channel(w.z, sky.z, t);
}

proof fn lemma_lerp_channel(a: int, b: int, t: int)
    requires
        0 <= a <= SCALE as int,
        0 <= b <= SCALE as int,
        0 <= t <= SCALE as int,
    ensures
        0 <= (a * (SCALE as int - t)) / (SCALE as int) + (b * t) / (SCALE as int) <= SCALE as int,
{
    let s = SCALE as int;
    assert(a * (s - t) == (s - t) * a && b * t == t * b) by (nonlinear_arith);
    lemma_fmul_unit_interval(s - t, a);
    lemma_fmul_unit_interval(t, b);
    lemma_fmul_unit_interval(a, s - t);
    lemma_fmul_unit_interval(b, t);
}

/// The background gradient for a non-degenerate direction.
pub fn background(dir: &Vec3) -> (r: Vec3)
    requires
        dir@.in_range(VEC_MAX as int),
        !dir@.near_zero(),
    ensures
        r@ == background_spec(dir@),
        r@.is_color(),
{
    let unit = dir.normalize();
    let t = (unit.y + SCALE) / 2;
    let white = Vec3 { x: SCALE, y: SCALE, z: SCALE };
    let sky = Vec3 { x: 32768, y: 45875, z: 65536 };
    proof {
        lemma_color_lerp_bounds(white@, sky@, t as int);
        lemma_lerp_channel(white@.x, sky@.x, t as int);
        lemma_lerp_channel(white@.y, sky@.y, t as int);
        lemma_lerp_channel(white@.z, sky@.z, t as int);
        crate::primitive_types::lemma_scale_fixed_range(
            white@,
            SCALE as int - t as int,
            SCALE as int,
            SCALE as int,
            SCALE as int,
        );
        crate::primitive_types::lemma_scale_fixed_range(
            sky@,
            t as int,
            SCALE as int,
            SCALE as int,
            SCALE as int,
        );
    }
    white.scale(SCALE - t).add(&sky.scale(t))
}

/// How a resolved color may relate to a ray, for some admissible run of the
/// randomness: black when the bounce budget is exhausted or the direction
/// degenerate; the background gradient on a miss; and on a hit, for some
/// scatter outcome the struck material admits, black if that outcome
/// absorbed the ray, else an admissible color of the scattered ray at one
/// less bounce, attenuated by the outcome's color.
pub open spec fn color_rel(
    objs: Seq<ObjectV>,
    mats: Seq<Material>,
    ray: RayV,
    depth: int,
    r: V3,
) -> bool
    decreases depth, 1int,
{
    if depth <= 0 || ray.dir.near_zero() {
        r == black()
    } else if scene_hit_spec(objs, ray, T_EPS as int, T_FAR as int) is None {
        r == background_spec(ray.dir)
    } else {
        hit_outcome(
            objs,
            mats,
            ray,
            depth,
            scene_hit_spec(objs, ray, T_EPS as int, T_FAR as int).unwrap(),
            r,
        )
    }
}

/// The admissible colors of a hit with record `h`: for some scatter outcome
/// of the struck material, black if the ray was absorbed, else an admissible
/// color of the scattered ray, attenuated.
pub open spec fn hit_outcome(
    objs: Seq<ObjectV>,
    mats: Seq<Material>,
    ray: RayV,
    depth: int,
    h: HitV,
    r: V3,
) -> bool
    decreases depth, 0int,
{
    ||| exists|att: V3|
        #![trigger mats[h.material].scatter_rel(ray, h, None::<RayV>, att)]
        {
            &&& mats[h.material].scatter_rel(ray, h, None::<RayV>, att)
            &&& r == black()
        }
    ||| exists|o: RayV, att: V3, c: V3|
        #![trigger mats[h.material].scatter_rel(ray, h, Some(o), att), c.comp_mul_fixed(att)]
        {
            &&& mats[h.material].scatter_rel(ray, h, Some(o), att)
            &&& depth >= 1 && color_rel(objs, mats, o, depth - 1, c)
            &&& r == c.comp_mul_fixed(att)
        }
}

/// Introduction form for the scattered hit case of `color_rel`.
proof fn lemma_color_rel_scatter(
    objs: Seq<ObjectV>,
    mats: Seq<Material>,
    ray: RayV,
    depth: int,
    h: HitV,
    out: RayV,
    att: V3,
    c: V3,
    r: V3,
)
    requires
        depth > 0,
        !ray.dir.near_zero(),
        scene_hit_spec(objs, ray, T_EPS as int, T_FAR as int) == Some(h),
        mats[h.material].scatter_rel(ray, h, Some(out), att),
        color_rel(objs, mats, out, depth - 1, c),
        r == c.comp_mul_fixed(att),
    ensures
        color_rel(objs, mats, ray, depth, r),
{
    assert(exists|o2: RayV, att2: V3, c2: V3|
        #![trigger mats[h.material].scatter_rel(ray, h, Some(o2), att2), c2.comp_mul_fixed(att2)]
        {
            &&& mats[h.material].scatter_rel(ray, h, Some(o2), att2)
            &&& depth >= 1 && color_rel(objs, mats, o2, depth - 1, c2)
            &&& r == c2.comp_mul_fixed(att2)
        });
    assert(hit_outcome(objs, mats, ray, depth, h, r));
}

/// Introduction form for the absorbed hit case of `color_rel`.
proof fn lemma_color_rel_absorb(
    objs: Seq<ObjectV>,
    mats: Seq<Material>,
    ray: RayV,
    depth: int,
    h: HitV,
    att: V3,
)
    requires
        depth > 0,
        !ray.dir.near_zero(),
        scene_hit_spec(objs, ray, T_EPS as int, T_FAR as int) == Some(h),
        mats[h.material].scatter_rel(ray, h, None::<RayV>, att),
    ensures
        color_rel(objs, mats, ray, depth, black()),
{
    assert(exists|att2: V3|
        #![trigger mats[h.material].scatter_rel(ray, h, None::<RayV>, att2)]
        {
            &&& mats[h.material].scatter_rel(ray, h, None::<RayV>, att2)
            &&& black() == black()
        });
    assert(hit_outcome(objs, mats, ray, depth, h, black()));
}

impl Ray {
    /// The radiance carried back along this ray, with `depth` bounces left:
    /// black when the budget is exhausted or the direction degenerate, the
    /// background gradient on a miss, and otherwise the scattered color
    /// attenuated by the struck material — black if the material absorbed
    /// the ray.
    pub fn get_color(
        &self,
        scene_objs: &Vec<Object>,
        materials: &Vec<Material>,
        depth: u32,
        rng: &mut RandomSource,
    ) -> (r: Vec3)
        requires
            self@.wf(),
            scene_objs.hit_wf(),
            crate::objects::scene_materials_ok(scene_objs@, materials@.len() as int),
            forall|i: int|
                0 <= i < materials@.len() ==> (#[trigger] materials@[i]).scatter_wf(),
        ensures
            r@.is_color(),
            depth == 0 ==> r@ == black(),
            depth > 0 && self@.dir.near_zero() ==> r@ == black(),
            depth > 0 && !self@.dir.near_zero() && scene_hit_spec(
                object_views(scene_objs@),
                self@,
                T_EPS as int,
                T_FAR as int,
            ) is None ==> r@ == background_spec(self@.dir),
            color_rel(object_views(scene_objs@), materials@, self@, depth as int, r@),
        decreases depth,
    {
        if depth == 0 {
            return Vec3::zero();
        }
        if self.direction.is_near_zero() {
            return Vec3::zero();
        }
        match scene_objs.hit(self, T_EPS, T_FAR) {
            Some(hit_rec) => {
                proof {
                    let views = object_views(scene_objs@);
                    assert forall|i: int| 0 <= i < views.len() implies 0 <= (
                    #[trigger] views[i]).material_index() < materials@.len() by {
                        assert(views[i] == scene_objs@[i]@);
                    }
                    crate::objects::lemma_scene_hit_material_bound(
                        views,
                        self@,
                        T_EPS as int,
                        T_FAR as int,
                        materials@.len() as int,
                    );
                }
                let m = &materials[hit_rec.material];
                let (scattered, attenuation) = m.scatter(self, &hit_rec, rng);
                match scattered {
                    Some(out) => {
                        let inner = out.get_color(scene_objs, materials, depth - 1, rng);
                        proof {
                            lemma_fmul_unit_interval(inner@.x, attenuation@.x);
                            lemma_fmul_unit_interval(inner@.y, attenuation@.y);
                            lemma_fmul_unit_interval(inner@.z, attenuation@.z);
                        }
                        let result = inner.comp_mul(&attenuation);
                        proof {
                            let views = object_views(scene_objs@);
                            assert(materials@[hit_rec@.material].scatter_rel(
                                self@,
                                hit_rec@,
                                Some(out@),
                                attenuation@,
                            ));
                            lemma_color_rel_scatter(
                                views,
                                materials@,
                                self@,
                                depth as int,
                                hit_rec@,
                                out@,
                                attenuation@,
                                inner@,
                                result@,
                            );
                        }
                        result
                    },
                    None => {
                        proof {
                            let views = object_views(scene_objs@);
                            assert(materials@[hit_rec@.material].scatter_rel(
                                self@,
                                hit_rec@,
                                None::<RayV>,
                                attenuation@,
                            ));
                            lemma_color_rel_absorb(
                                views,
                                materials@,
                                self@,
                                depth as int,
                                hit_rec@,
                                attenuation@,
                            );
                        }
                        Vec3::zero()
                    },
                }
            },
            None => background(&self.direction),
        }
    }
}

} // verus!
