//! Primitives and the scene aggregate.
//!
//! A scene is a vector of objects tested exhaustively; the closest hit in the
//! search interval wins.  The intersection routines are total: degenerate
//! arithmetic (a hit point or normal outside the representable range) counts
//! as a miss, and the specification says exactly when that happens.

use crate::fixed::{div_floor, isqrt, isqrt_spec, SCALE};
use crate::primitive_types::abs_spec;
use crate::ray::{HitRecord, HitV, Ray, RayV, DIR_MAX, NORMAL_MAX, ORIGIN_MAX, T_FAR};
use crate::vec3::{lemma_dot_raw_bound, lemma_dot_self_pos, Vec3, V3};
use vstd::prelude::*;

verus! {

/// Bound on scene coordinates: sphere centers and radii.
pub const COORD_MAX: i64 = 268435456;

/// Mathematical model of a sphere.
pub ghost struct SphereV {
    pub center: V3,
    pub radius: int,
    pub material: int,
}

impl SphereV {
    /// Spheres a scene may hold: bounded center and radius, a radius that is
    /// not zero (its sign marks an inward-facing shell), and a material slot.
    pub open spec fn wf(self) -> bool {
        &&& self.center.in_range(COORD_MAX as int)
        &&& self.radius != 0
        &&& -(COORD_MAX as int) <= self.radius <= COORD_MAX as int
        &&& 0 <= self.material
    }

    /// The exact intersection computation: solve the quadratic from
    /// substituting the ray into the sphere equation, prefer the smaller root
    /// inside `[t_min, t_max)`, and populate the record.  A hit whose point
    /// or normal falls outside the representable range counts as a miss.
    pub open spec fn hit_spec(self, ray: RayV, t_min: int, t_max: int) -> Option<HitV> {
        let s = SCALE as int;
        let oc = ray.origin.sub3(self.center);
        let a = ray.dir.dot_raw(ray.dir);
        let half_b = oc.dot_raw(ray.dir);
        let c = oc.dot_raw(oc) - self.radius * self.radius;
        let disc = half_b * half_b - a * c;
        if disc < 0 {
            None
        } else {
            let sq = isqrt_spec(disc as nat) as int;
            let root1 = ((-half_b - sq) * s) / a;
            let root2 = ((-half_b + sq) * s) / a;
            let root = if t_min <= root1 < t_max {
                root1
            } else {
                root2
            };
            if !(t_min <= root < t_max) {
                None
            } else {
                let p = ray.at_spec(root);
                if !p.in_range(ORIGIN_MAX as int) {
                    None
                } else {
                    let pc = p.sub3(self.center);
                    let ar = abs_spec(self.radius);
                    let ow0 = V3 { x: (pc.x * s) / ar, y: (pc.y * s) / ar, z: (pc.z * s) / ar };
                    let outward = if self.radius < 0 {
                        ow0.neg3()
                    } else {
                        ow0
                    };
                    if !outward.in_range(NORMAL_MAX as int) {
                        None
                    } else {
                        Some(
                            HitV {
                                point: p,
                                normal: outward,
                                t: root,
                                front_face: true,
                                material: self.material,
                            }.with_face_normal(ray, outward),
                        )
                    }
                }
            }
        }
    }
}

/// A sphere: center, radius (negative for a hollow, inward-facing shell) and
/// the index of its material in the scene's arena.
#[derive(Clone, Copy, Debug)]
pub struct Sphere {
    pub center: Vec3,
    pub radius: i64,
    pub material: usize,
}

impl View for Sphere {
    type V = SphereV;

    open spec fn view(&self) -> SphereV {
        SphereV { center: self.center@, radius: self.radius as int, material: self.material as int }
    }
}

/// Mathematical model of a primitive.
pub ghost enum ObjectV {
    Sphere(SphereV),
}

impl ObjectV {
    pub open spec fn wf(self) -> bool {
        match self {
            ObjectV::Sphere(s) => s.wf(),
        }
    }

    pub open spec fn hit_spec(self, ray: RayV, t_min: int, t_max: int) -> Option<HitV> {
        match self {
            ObjectV::Sphere(s) => s.hit_spec(ray, t_min, t_max),
        }
    }

    pub open spec fn material_index(self) -> int {
        match self {
            ObjectV::Sphere(s) => s.material,
        }
    }
}

/// A geometric primitive of the scene.
#[derive(Clone, Copy, Debug)]
pub enum Object {
    Sphere(Sphere),
}

impl View for Object {
    type V = ObjectV;

    open spec fn view(&self) -> ObjectV {
        match self {
            Object::Sphere(s) => ObjectV::Sphere(s@),
        }
    }
}

/// The view of an intersection result.
pub open spec fn rec_view(r: Option<HitRecord>) -> Option<HitV> {
    match r {
        Some(h) => Some(h@),
        None => None,
    }
}

/// Intersection test against the parameter interval `[t_min, t_max)`.
pub trait Hit {
    spec fn hit_wf(&self) -> bool;

    spec fn hit_spec(&self, ray: RayV, t_min: int, t_max: int) -> Option<HitV>;

    fn hit(&self, ray: &Ray, t_min: i64, t_max: i64) -> (r: Option<HitRecord>)
        requires
            self.hit_wf(),
            ray@.wf(),
            !ray@.dir.near_zero(),
            0 <= t_min,
            t_max <= T_FAR,
        ensures
            rec_view(r) == self.hit_spec(ray@, t_min as int, t_max as int),
            r matches Some(h) ==> h@.wf() && t_min <= h@.t < t_max,
    ;
}

impl Hit for Sphere {
    open spec fn hit_wf(&self) -> bool {
        self@.wf()
    }

    open spec fn hit_spec(&self, ray: RayV, t_min: int, t_max: int) -> Option<HitV> {
        self@.hit_spec(ray, t_min, t_max)
    }

    fn hit(&self, ray: &Ray, t_min: i64, t_max: i64) -> (r: Option<HitRecord>) {
        let s128 = SCALE as i128;
        proof {
            lemma_dot_self_pos(ray@.dir);
            // The origin-to-center vector is bounded by ORIGIN_MAX + COORD_MAX.
            lemma_dot_raw_bound(ray@.dir, ray@.dir, DIR_MAX as int, DIR_MAX as int);
            lemma_dot_raw_bound(
                ray@.origin.sub3(self@.center),
                ray@.dir,
                805306368,
                DIR_MAX as int,
            );
            lemma_dot_raw_bound(
                ray@.origin.sub3(self@.center),
                ray@.origin.sub3(self@.center),
                805306368,
                805306368,
            );
            assert(3 * (805306368 * (DIR_MAX as int)) == 5188146770730811392 && 3 * ((
            DIR_MAX as int) * (DIR_MAX as int)) == 13835058055282163712 && 3 * (805306368int
                * 805306368) == 1945555039024054272) by (nonlinear_arith)
                requires
                    DIR_MAX == 2147483648,
            ;
        }
        let oc = ray.origin.sub(&self.center);
        let a = ray.direction.dot_raw_wide(&ray.direction);
        let half_b = oc.dot_raw_wide(&ray.direction);
        proof {
            assert(0 <= (self.radius as int) * (self.radius as int) <= 72057594037927936)
                by (nonlinear_arith)
                requires
                    -(COORD_MAX as int) <= self.radius as int <= COORD_MAX as int,
                    COORD_MAX == 268435456,
            ;
        }
        let r2: i128 = (self.radius as i128) * (self.radius as i128);
        let c = oc.dot_raw_wide(&oc) - r2;
        proof {
            assert(0 <= (half_b as int) * (half_b as int) <= 5188146770730811392int
                * 5188146770730811392 && -(13835058055282163712int * 2017612633061982208) <= (
            a as int) * (c as int) <= 13835058055282163712int * 2017612633061982208
                && 5188146770730811392int * 5188146770730811392 + 13835058055282163712int
                * 2017612633061982208 < 0x40000000000000000000000000000000
                && 0 <= 13835058055282163712int * 2017612633061982208) by (nonlinear_arith)
                requires
                    -5188146770730811392 <= half_b as int <= 5188146770730811392,
                    0 <= a as int <= 13835058055282163712,
                    -2017612633061982208 <= c as int <= 2017612633061982208,
            ;
        }
        let disc = half_b * half_b - a * c;
        if disc < 0 {
            return None;
        }
        let sq_u = isqrt(disc as u128);
        proof {
            assert((sq_u as int) * (sq_u as int) <= disc as int);
            assert((sq_u as int) <= 0x8000000000000000) by (nonlinear_arith)
                requires
                    (sq_u as int) * (sq_u as int) <= 0x40000000000000000000000000000000,
                    sq_u >= 0,
            ;
        }
        let sq = sq_u as i128;
        let root1 = div_floor((-half_b - sq) * s128, a);
        let root1_ok = t_min as i128 <= root1 && root1 < t_max as i128;
        let root_w: i128 = if root1_ok {
            root1
        } else {
            div_floor((-half_b + sq) * s128, a)
        };
        if !(t_min as i128 <= root_w && root_w < t_max as i128) {
            return None;
        }
        let root = root_w as i64;
        let p = ray.at(root);
        if p.x > ORIGIN_MAX || p.x < -ORIGIN_MAX || p.y > ORIGIN_MAX || p.y < -ORIGIN_MAX || p.z
            > ORIGIN_MAX || p.z < -ORIGIN_MAX {
            return None;
        }
        let pc = p.sub(&self.center);
        let ar = if self.radius >= 0 {
            self.radius
        } else {
            -self.radius
        };
        proof {
            lemma_outward_component_bound(pc@.x, ar as int);
            lemma_outward_component_bound(pc@.y, ar as int);
            lemma_outward_component_bound(pc@.z, ar as int);
        }
        let ow0 = Vec3 {
            x: div_floor((pc.x as i128) * s128, ar as i128) as i64,
            y: div_floor((pc.y as i128) * s128, ar as i128) as i64,
            z: div_floor((pc.z as i128) * s128, ar as i128) as i64,
        };
        let outward = if self.radius < 0 {
            ow0.neg()
        } else {
            ow0
        };
        if outward.x > NORMAL_MAX || outward.x < -NORMAL_MAX || outward.y > NORMAL_MAX || outward.y
            < -NORMAL_MAX || outward.z > NORMAL_MAX || outward.z < -NORMAL_MAX {
            return None;
        }
        let mut rec = HitRecord {
            point: p,
            normal: outward,
            t: root,
            front_face: true,
            material: self.material,
        };
        rec.set_face_normal(ray, outward);
        Some(rec)
    }
}

/// A component of a hit point, rescaled by the radius, stays far inside
/// `i64`: dividing by a positive integer cannot grow the magnitude.
proof fn lemma_outward_component_bound(c: int, ar: int)
    requires
        -1073741824 <= c <= 1073741824,
        1 <= ar,
    ensures
        -70368744177665 <= (c * (SCALE as int)) / ar <= 70368744177664,
{
    assert(-(ar * 70368744177664) <= c * (SCALE as int) <= ar * 70368744177664)
        by (nonlinear_arith)
        requires
            -1073741824 <= c <= 1073741824,
            1 <= ar,
            SCALE == 65536,
    ;
    crate::fixed::lemma_div_exact_bound(c * (SCALE as int), 70368744177664, ar);
}

impl Hit for Object {
    open spec fn hit_wf(&self) -> bool {
        self@.wf()
    }

    open spec fn hit_spec(&self, ray: RayV, t_min: int, t_max: int) -> Option<HitV> {
        self@.hit_spec(ray, t_min, t_max)
    }

    fn hit(&self, ray: &Ray, t_min: i64, t_max: i64) -> (r: Option<HitRecord>) {
        match self {
            Object::Sphere(sphere) => sphere.hit(ray, t_min, t_max),
        }
    }
}

/// The views of a scene's objects.
pub open spec fn object_views(s: Seq<Object>) -> Seq<ObjectV> {
    s.map_values(|o: Object| o@)
}

/// Closest hit over a sequence of objects: each object is tested against the
/// interval shrunk to the best hit so far, left to right.
pub open spec fn scene_hit_spec(objs: Seq<ObjectV>, ray: RayV, t_min: int, t_max: int) -> Option<
    HitV,
>
    decreases objs.len(),
{
    if objs.len() == 0 {
        None
    } else {
        let prefix = scene_hit_spec(objs.drop_last(), ray, t_min, t_max);
        let upper = match prefix {
            Some(h) => h.t,
            None => t_max,
        };
        match objs.last().hit_spec(ray, t_min, upper) {
            Some(h) => Some(h),
            None => prefix,
        }
    }
}

impl Hit for Vec<Object> {
    open spec fn hit_wf(&self) -> bool {
        forall|i: int| 0 <= i < self@.len() ==> (#[trigger] self@[i])@.wf()
    }

    open spec fn hit_spec(&self, ray: RayV, t_min: int, t_max: int) -> Option<HitV> {
        scene_hit_spec(object_views(self@), ray, t_min, t_max)
    }

    fn hit(&self, ray: &Ray, t_min: i64, t_max: i64) -> (r: Option<HitRecord>) {
        let ghost views = object_views(self@);
        let mut best: Option<HitRecord> = None;
        let mut closest: i64 = t_max;
        let mut i: usize = 0;
        proof {
            assert(views.take(0) =~= Seq::<ObjectV>::empty());
        }
        while i < self.len()
            invariant
                0 <= i <= self@.len(),
                views == object_views(self@),
                forall|j: int| 0 <= j < self@.len() ==> (#[trigger] self@[j])@.wf(),
                ray@.wf(),
                !ray@.dir.near_zero(),
                0 <= t_min,
                t_max <= T_FAR,
                rec_view(best) == scene_hit_spec(views.take(i as int), ray@, t_min as int, t_max as int),
                match best {
                    Some(h) => h@.wf() && t_min <= h@.t < t_max && closest as int == h@.t,
                    None => closest == t_max,
                },
            decreases self@.len() - i,
        {
            let obj = &self[i];
            let candidate = obj.hit(ray, t_min, closest);
            proof {
                assert(views.take(i + 1).drop_last() =~= views.take(i as int));
                assert(views.take(i + 1).last() == views[i as int]);
                assert(views[i as int] == self@[i as int]@);
            }
            match candidate {
                Some(rec) => {
                    closest = rec.t;
                    best = Some(rec);
                },
                None => {},
            }
            i = i + 1;
        }
        proof {
            assert(views.take(self@.len() as int) =~= views);
        }
        best
    }
}

/// Whether every object's material slot indexes into an arena of `n_mats`
/// materials.
pub open spec fn scene_materials_ok(objs: Seq<Object>, n_mats: int) -> bool {
    forall|i: int| 0 <= i < objs.len() ==> 0 <= (#[trigger] objs[i])@.material_index() < n_mats
}

/// If every object's material slot lies below `bound`, so does the slot of
/// whatever record the closest-hit search returns.
pub proof fn lemma_scene_hit_material_bound(
    objs: Seq<ObjectV>,
    ray: RayV,
    t_min: int,
    t_max: int,
    bound: int,
)
    requires
        forall|i: int| 0 <= i < objs.len() ==> 0 <= (#[trigger] objs[i]).material_index() < bound,
        scene_hit_spec(objs, ray, t_min, t_max) is Some,
    ensures
        0 <= scene_hit_spec(objs, ray, t_min, t_max).unwrap().material < bound,
    decreases objs.len(),
{
    let prefix = scene_hit_spec(objs.drop_last(), ray, t_min, t_max);
    let upper = match prefix {
        Some(h) => h.t,
        None => t_max,
    };
    match objs.last().hit_spec(ray, t_min, upper) {
        Some(h) => {
            assert(objs.last() == objs[objs.len() - 1]);
        },
        None => {
            lemma_scene_hit_material_bound(objs.drop_last(), ray, t_min, t_max, bound);
        },
    }
}

/// Every sphere hit is oriented against the ray: the stored normal is the
/// outward normal `(point - center) / radius` (in fixed-point division),
/// flipped to the struck side, so its dot product with the ray direction is
/// never positive, and `front_face` records exactly whether the ray met the
/// outward side.
pub proof fn lemma_sphere_hit_faces_ray(s: SphereV, ray: RayV, t_min: int, t_max: int)
    requires
        s.hit_spec(ray, t_min, t_max) is Some,
    ensures
        ({
            let h = s.hit_spec(ray, t_min, t_max).unwrap();
            let sc = SCALE as int;
            let pc = h.point.sub3(s.center);
            let ar = abs_spec(s.radius);
            let ow0 = V3 { x: (pc.x * sc) / ar, y: (pc.y * sc) / ar, z: (pc.z * sc) / ar };
            let outward = if s.radius < 0 {
                ow0.neg3()
            } else {
                ow0
            };
            &&& ray.dir.dot_raw(h.normal) <= 0
            &&& h.front_face == (ray.dir.dot_raw(outward) < 0)
            &&& h.normal == if h.front_face {
                outward
            } else {
                outward.neg3()
            }
        }),
{
    let h = s.hit_spec(ray, t_min, t_max).unwrap();
    let sc = SCALE as int;
    let pc = h.point.sub3(s.center);
    let ar = abs_spec(s.radius);
    let ow0 = V3 { x: (pc.x * sc) / ar, y: (pc.y * sc) / ar, z: (pc.z * sc) / ar };
    let outward = if s.radius < 0 {
        ow0.neg3()
    } else {
        ow0
    };
    crate::ray::lemma_face_normal_opposes_ray(h, ray, outward);
}

/// Re-testing the same ray against the same sphere over a shrunk interval
/// that still contains the original hit parameter returns the same record:
/// the intersection is idempotent under interval narrowing.
pub proof fn lemma_sphere_hit_idempotent(
    s: SphereV,
    ray: RayV,
    t_min: int,
    t_max: int,
    t_min2: int,
    t_max2: int,
)
    requires
        !ray.dir.near_zero(),
        s.hit_spec(ray, t_min, t_max) is Some,
        t_min <= t_min2 <= s.hit_spec(ray, t_min, t_max).unwrap().t,
        s.hit_spec(ray, t_min, t_max).unwrap().t < t_max2 <= t_max,
    ensures
        s.hit_spec(ray, t_min2, t_max2) == s.hit_spec(ray, t_min, t_max),
{
    lemma_dot_self_pos(ray.dir);
    let sc = SCALE as int;
    let oc = ray.origin.sub3(s.center);
    let a = ray.dir.dot_raw(ray.dir);
    let half_b = oc.dot_raw(ray.dir);
    let c = oc.dot_raw(oc) - s.radius * s.radius;
    let disc = half_b * half_b - a * c;
    let sq = isqrt_spec(disc as nat) as int;
    let root1 = ((-half_b - sq) * sc) / a;
    let root2 = ((-half_b + sq) * sc) / a;
    assert((-half_b - sq) * sc <= (-half_b + sq) * sc) by (nonlinear_arith)
        requires
            sq >= 0,
            sc > 0,
    ;
    vstd::arithmetic::div_mod::lemma_div_is_ordered(
        (-half_b - sq) * sc,
        (-half_b + sq) * sc,
        a,
    );
    let h = s.hit_spec(ray, t_min, t_max).unwrap();
    if t_min <= root1 < t_max {
        assert(h.t == root1);
        assert(t_min2 <= root1 < t_max2);
    } else {
        assert(h.t == root2);
        assert(root1 <= root2);
        if root1 >= t_min {
            assert(root1 >= t_max);
            assert(root2 < t_max);
            assert(false);
        }
        assert(root1 < t_min2);
    }
}

} // verus!
