//! Camera: maps normalized image-plane coordinates, plus lens jitter, to
//! world-space rays.
//!
//! Built once from a validated configuration: orthonormal basis from
//! look-from/look-at/up, viewport from the vertical field of view (via a
//! fixed-point polynomial tangent) and the aspect ratio, and a thin-lens
//! aperture for depth of field.

use crate::fixed::{div_floor, lemma_div_exact_bound, SCALE};
use crate::primitive_types::{lemma_cross_fixed_range, lemma_scale_fixed_range, IsNearZero};
use crate::ray::{Ray, RayV};
use crate::rng::{random_in_unit_disk, RandomSource};
use crate::vec3::{Vec3, V3};
use vstd::arithmetic::div_mod::lemma_div_pos_is_pos;
use vstd::prelude::*;

verus! {

/// Bound on camera coordinates: look-from, look-at, up, focus distance,
/// aperture, and every derived camera vector.
pub const CAM_MAX: i64 = 67108864;

/// Pi, rounded down to fixed-point.
pub const PI_FIXED: i64 = 205887;

/// Fixed-point degrees in a half circle: the denominator of the
/// degree-to-radian conversion.
pub const HALF_CIRCLE_DEG: i64 = 11796480;

/// Sine by its Taylor polynomial through the seventh power, each power
/// rescaled once; adequate over `[0, pi/2]`.
pub open spec fn sin_fixed(x: int) -> int {
    let s = SCALE as int;
    let x2 = (x * x) / s;
    let x3 = (x2 * x) / s;
    let x5 = (x3 * x2) / s;
    let x7 = (x5 * x2) / s;
    x - x3 / 6 + x5 / 120 - x7 / 5040
}

/// Cosine by its Taylor polynomial through the sixth power.
pub open spec fn cos_fixed(x: int) -> int {
    let s = SCALE as int;
    let x2 = (x * x) / s;
    let x4 = (x2 * x2) / s;
    let x6 = (x4 * x2) / s;
    s - x2 / 2 + x4 / 24 - x6 / 720
}

/// Fixed-point sine on `[0, 2]` (covers half-angles up to a right angle).
pub fn sin_approx(x: i64) -> (r: i64)
    requires
        0 <= x <= 2 * SCALE,
    ensures
        r == sin_fixed(x as int),
        -(3 * SCALE) <= r <= 3 * SCALE,
{
    let s128 = SCALE as i128;
    proof {
        lemma_pow_chain(x as int);
    }
    let x2 = div_floor((x as i128) * (x as i128), s128) as i64;
    let x3 = div_floor((x2 as i128) * (x as i128), s128) as i64;
    let x5 = div_floor((x3 as i128) * (x2 as i128), s128) as i64;
    let x7 = div_floor((x5 as i128) * (x2 as i128), s128) as i64;
    x - x3 / 6 + x5 / 120 - x7 / 5040
}

/// Fixed-point cosine on `[0, 2]`.
pub fn cos_approx(x: i64) -> (r: i64)
    requires
        0 <= x <= 2 * SCALE,
    ensures
        r == cos_fixed(x as int),
        -(3 * SCALE) <= r <= 3 * SCALE,
{
    let s128 = SCALE as i128;
    proof {
        lemma_pow_chain(x as int);
    }
    let x2 = div_floor((x as i128) * (x as i128), s128) as i64;
    let x4 = div_floor((x2 as i128) * (x2 as i128), s128) as i64;
    let x6 = div_floor((x4 as i128) * (x2 as i128), s128) as i64;
    SCALE - x2 / 2 + x4 / 24 - x6 / 720
}

/// The rescaled powers of an argument in `[0, 2]` stay small and
/// non-negative.
proof fn lemma_pow_chain(x: int)
    requires
        0 <= x <= 2 * (SCALE as int),
    ensures
        ({
            let s = SCALE as int;
            let x2 = (x * x) / s;
            let x3 = (x2 * x) / s;
            let x4 = (x2 * x2) / s;
            let x5 = (x3 * x2) / s;
            let x6 = (x4 * x2) / s;
            let x7 = (x5 * x2) / s;
            &&& 0 <= x2 <= 4 * s
            &&& 0 <= x3 <= 8 * s
            &&& 0 <= x4 <= 16 * s
            &&& 0 <= x5 <= 32 * s
            &&& 0 <= x6 <= 64 * s
            &&& 0 <= x7 <= 128 * s
        }),
{
    let s = SCALE as int;
    assert((2 * s) * (2 * s) <= s * (4 * s) && (4 * s) * (2 * s) <= s * (8 * s) && (4 * s) * (4
        * s) <= s * (16 * s) && (8 * s) * (4 * s) <= s * (32 * s) && (16 * s) * (4 * s) <= s * (64
        * s) && (32 * s) * (4 * s) <= s * (128 * s)) by (nonlinear_arith);
    lemma_pow_step(x, x, 2 * s, 2 * s, 4 * s);
    let x2 = (x * x) / s;
    lemma_pow_step(x2, x, 4 * s, 2 * s, 8 * s);
    let x3 = (x2 * x) / s;
    lemma_pow_step(x2, x2, 4 * s, 4 * s, 16 * s);
    let x4 = (x2 * x2) / s;
    lemma_pow_step(x3, x2, 8 * s, 4 * s, 32 * s);
    let x5 = (x3 * x2) / s;
    lemma_pow_step(x4, x2, 16 * s, 4 * s, 64 * s);
    let x6 = (x4 * x2) / s;
    lemma_pow_step(x5, x2, 32 * s, 4 * s, 128 * s);
}

proof fn lemma_pow_step(a: int, b: int, m: int, n: int, q: int)
    requires
        0 <= a <= m,
        0 <= b <= n,
        0 <= q,
        m * n <= (SCALE as int) * q,
    ensures
        0 <= (a * b) / (SCALE as int) <= q,
{
    let s = SCALE as int;
    assert(0 <= a * b <= s * q) by (nonlinear_arith)
        requires
            0 <= a <= m,
            0 <= b <= n,
            m * n <= s * q,
    ;
    lemma_div_pos_is_pos(a * b, s);
    lemma_div_exact_bound(a * b, q, s);
}

/// Why a camera could not be built from its configuration.
#[derive(Clone, Copy, Debug, PartialEq, Eq, Structural)]
pub enum CameraBuildError {
    /// The focus distance has no default and was not given.
    MissingFocusDistance,
    /// A coordinate, distance or ratio lies outside the supported range, or
    /// a derived camera vector would.
    OutOfRange,
    /// The vertical field of view is not in the open interval from zero to a
    /// half circle, or its viewport would be degenerate or too wide.
    InvalidFieldOfView,
    /// Look-from equals look-at, or the up vector is parallel to the view
    /// direction.
    DegenerateOrientation,
}

/// Mathematical model of a camera.
pub ghost struct CameraV {
    pub origin: V3,
    pub look_at: V3,
    pub vup: V3,
    pub vfov: int,
    pub aspect_ratio: int,
    pub view_height: int,
    pub view_width: int,
    pub aperture: int,
    pub focus_dist: int,
    pub lens_radius: int,
    pub w: V3,
    pub u: V3,
    pub v: V3,
    pub vertical: V3,
    pub horizontal: V3,
    pub top_left_corner: V3,
}

impl CameraV {
    /// Cameras the renderer accepts: every field within the bounds the ray
    /// generator needs.
    pub open spec fn wf(self) -> bool {
        &&& self.origin.in_range(CAM_MAX as int)
        &&& self.w.in_range(SCALE as int)
        &&& self.u.in_range(SCALE as int)
        &&& self.v.in_range(2 * (SCALE as int))
        &&& self.horizontal.in_range(CAM_MAX as int)
        &&& self.vertical.in_range(CAM_MAX as int)
        &&& self.top_left_corner.in_range(CAM_MAX as int)
        &&& 0 <= self.lens_radius <= CAM_MAX as int
        &&& 1 <= self.focus_dist <= CAM_MAX as int
        &&& 0 <= self.view_height <= CAM_MAX as int
        &&& 1 <= self.aspect_ratio <= 8192 * (SCALE as int)
    }

    /// The ray through image-plane coordinates `(s, t)` for the lens sample
    /// `rd`: offset the origin within the aperture, aim at the viewport
    /// point.
    pub open spec fn ray_spec(self, s: int, t: int, rd: V3) -> RayV {
        let rds = rd.scale_fixed(self.lens_radius);
        let offset = self.u.scale_fixed(rds.x).add3(self.v.scale_fixed(rds.y));
        let origin = self.origin.add3(offset);
        let dir = self.top_left_corner.add3(self.horizontal.scale_fixed(s)).sub3(
            self.vertical.scale_fixed(t),
        ).sub3(self.origin).sub3(offset);
        RayV { origin, dir }
    }
}

/// A camera, immutable once built.
#[derive(Clone, Copy, Debug)]
pub struct Camera {
    pub origin: Vec3,
    pub look_at: Vec3,
    pub vup: Vec3,
    pub vfov: i64,
    pub aspect_ratio: i64,
    pub view_height: i64,
    pub view_width: i64,
    pub aperture: i64,
    pub focus_dist: i64,
    pub lens_radius: i64,
    pub w: Vec3,
    pub u: Vec3,
    pub v: Vec3,
    pub vertical: Vec3,
    pub horizontal: Vec3,
    pub top_left_corner: Vec3,
}

impl View for Camera {
    type V = CameraV;

    open spec fn view(&self) -> CameraV {
        CameraV {
            origin: self.origin@,
            look_at: self.look_at@,
            vup: self.vup@,
            vfov: self.vfov as int,
            aspect_ratio: self.aspect_ratio as int,
            view_height: self.view_height as int,
            view_width: self.view_width as int,
            aperture: self.aperture as int,
            focus_dist: self.focus_dist as int,
            lens_radius: self.lens_radius as int,
            w: self.w@,
            u: self.u@,
            v: self.v@,
            vertical: self.vertical@,
            horizontal: self.horizontal@,
            top_left_corner: self.top_left_corner@,
        }
    }
}

impl Camera {
    /// The camera ray for image-plane coordinates `(s, t)` and the given
    /// lens sample: deterministic, used by `get_ray` with a random sample.
    pub fn get_ray_at(&self, s: i64, t: i64, rd: Vec3) -> (r: Ray)
        requires
            self@.wf(),
            0 <= s <= 2 * SCALE,
            0 <= t <= 2 * SCALE,
            rd@.in_range(SCALE as int),
        ensures
            r@ == self@.ray_spec(s as int, t as int, rd@),
            r@.wf(),
    {
        proof {
            lemma_scale_fixed_range(
                rd@,
                self@.lens_radius,
                SCALE as int,
                CAM_MAX as int,
                CAM_MAX as int,
            );
        }
        let rds = rd.scale(self.lens_radius);
        proof {
            lemma_scale_fixed_range(
                self@.u,
                rds@.x,
                SCALE as int,
                CAM_MAX as int,
                CAM_MAX as int,
            );
            lemma_scale_fixed_range(
                self@.v,
                rds@.y,
                2 * (SCALE as int),
                CAM_MAX as int,
                2 * (CAM_MAX as int),
            );
            lemma_scale_fixed_range(
                self@.horizontal,
                s as int,
                CAM_MAX as int,
                2 * (SCALE as int),
                2 * (CAM_MAX as int),
            );
            lemma_scale_fixed_range(
                self@.vertical,
                t as int,
                CAM_MAX as int,
                2 * (SCALE as int),
                2 * (CAM_MAX as int),
            );
        }
        let offset = self.u.scale(rds.x).add(&self.v.scale(rds.y));
        let origin = self.origin.add(&offset);
        let dir = self.top_left_corner.add(&self.horizontal.scale(s)).sub(
            &self.vertical.scale(t),
        ).sub(&self.origin).sub(&offset);
        Ray { origin, direction: dir }
    }

    /// The camera ray for image-plane coordinates `(s, t)`, with a fresh
    /// lens sample: some sample in the unit disk determines the ray.
    pub fn get_ray(&self, s: i64, t: i64, rng: &mut RandomSource) -> (r: Ray)
        requires
            self@.wf(),
            0 <= s <= 2 * SCALE,
            0 <= t <= 2 * SCALE,
        ensures
            exists|rd: V3|
                rd.dot_raw(rd) < (SCALE as int) * (SCALE as int) && rd.in_range(SCALE as int)
                    && rd.z == 0 && r@ == self@.ray_spec(s as int, t as int, rd),
            r@.wf(),
    {
        let rd = random_in_unit_disk(rng);
        let r = self.get_ray_at(s, t, rd);
        proof {
            assert(rd@.dot_raw(rd@) < (SCALE as int) * (SCALE as int) && rd@.in_range(
                SCALE as int,
            ) && rd@.z == 0 && r@ == self@.ray_spec(s as int, t as int, rd@));
        }
        r
    }
}

/// Mathematical model of a camera configuration.
pub ghost struct CameraConfigV {
    pub origin: Option<V3>,
    pub look_at: Option<V3>,
    pub vup: Option<V3>,
    pub vfov: Option<int>,
    pub aspect_ratio: Option<int>,
    pub aperture: Option<int>,
    pub focus_dist: Option<int>,
}

/// A field or its documented default.
pub open spec fn cfg_or(o: Option<int>, dflt: int) -> int {
    match o {
        Some(v) => v,
        None => dflt,
    }
}

pub open spec fn cfg_or_v3(o: Option<V3>, dflt: V3) -> V3 {
    match o {
        Some(v) => v,
        None => dflt,
    }
}

/// The exact outcome of building a camera: either every derived field, or
/// the first validation failure.  Defaults: look-from the world origin,
/// look-at one unit down the negative z-axis, up the positive y-axis, a
/// vertical field of view of ninety degrees, an aspect ratio of 16:9
/// (rounded down), an aperture of two; the focus distance has no default.
pub open spec fn camera_build_spec(cfg: CameraConfigV) -> Result<CameraV, CameraBuildError> {
    let s = SCALE as int;
    let cm = CAM_MAX as int;
    let origin = cfg_or_v3(cfg.origin, V3 { x: 0, y: 0, z: 0 });
    let look_at = cfg_or_v3(cfg.look_at, V3 { x: 0, y: 0, z: -s });
    let vup = cfg_or_v3(cfg.vup, V3 { x: 0, y: s, z: 0 });
    let vfov = cfg_or(cfg.vfov, 90 * s);
    let aspect_ratio = cfg_or(cfg.aspect_ratio, 116508);
    let aperture = cfg_or(cfg.aperture, 2 * s);
    if cfg.focus_dist is None {
        Err(CameraBuildError::MissingFocusDistance)
    } else {
        let focus_dist = cfg.focus_dist.unwrap();
        if !(origin.in_range(cm) && look_at.in_range(cm) && vup.in_range(cm) && 1 <= focus_dist
            <= cm && 0 <= aperture <= cm && 1 <= aspect_ratio <= 8192 * s) {
            Err(CameraBuildError::OutOfRange)
        } else if !(1 <= vfov < 180 * s) {
            Err(CameraBuildError::InvalidFieldOfView)
        } else {
            let w0 = origin.sub3(look_at);
            if w0.near_zero() {
                Err(CameraBuildError::DegenerateOrientation)
            } else {
                let w = w0.norm_fixed();
                let cu = vup.cross_fixed(w);
                if cu.near_zero() {
                    Err(CameraBuildError::DegenerateOrientation)
                } else {
                    let u = cu.norm_fixed();
                    let v = w.cross_fixed(u);
                    let x = ((vfov / 2) * (PI_FIXED as int)) / (HALF_CIRCLE_DEG as int);
                    let sin = sin_fixed(x);
                    let cos = cos_fixed(x);
                    if cos < 1 {
                        Err(CameraBuildError::InvalidFieldOfView)
                    } else {
                        let tan = (sin * s) / cos;
                        if !(1 <= tan && 2 * tan <= cm) {
                            Err(CameraBuildError::InvalidFieldOfView)
                        } else {
                            let view_height = 2 * tan;
                            let view_width = (view_height * aspect_ratio) / s;
                            let fh = (focus_dist * view_height) / s;
                            let fw = (focus_dist * view_width) / s;
                            let vertical = v.scale_fixed(fh);
                            let horizontal = u.scale_fixed(fw);
                            if !(1 <= view_width <= cm && vertical.in_range(cm)
                                && horizontal.in_range(cm)) {
                                Err(CameraBuildError::OutOfRange)
                            } else {
                                let corner = origin.sub3(horizontal.scale_fixed(32768)).add3(
                                    vertical.scale_fixed(32768),
                                ).sub3(w.scale_fixed(focus_dist));
                                if !corner.in_range(cm) {
                                    Err(CameraBuildError::OutOfRange)
                                } else {
                                    Ok(
                                        CameraV {
                                            origin,
                                            look_at,
                                            vup,
                                            vfov,
                                            aspect_ratio,
                                            view_height,
                                            view_width,
                                            aperture,
                                            focus_dist,
                                            lens_radius: aperture / 2,
                                            w,
                                            u,
                                            v,
                                            vertical,
                                            horizontal,
                                            top_left_corner: corner,
                                        },
                                    )
                                }
                            }
                        }
                    }
                }
            }
        }
    }
}

/// Configuration for a camera; unset fields take their documented defaults
/// when the camera is built.
#[derive(Clone, Copy, Debug)]
pub struct CameraBuilder {
    pub origin: Option<Vec3>,
    pub look_at: Option<Vec3>,
    pub vup: Option<Vec3>,
    pub vfov: Option<i64>,
    pub aspect_ratio: Option<i64>,
    pub aperture: Option<i64>,
    pub focus_dist: Option<i64>,
}

impl View for CameraBuilder {
    type V = CameraConfigV;

    open spec fn view(&self) -> CameraConfigV {
        CameraConfigV {
            origin: match self.origin {
                Some(v) => Some(v@),
                None => None,
            },
            look_at: match self.look_at {
                Some(v) => Some(v@),
                None => None,
            },
            vup: match self.vup {
                Some(v) => Some(v@),
                None => None,
            },
            vfov: match self.vfov {
                Some(v) => Some(v as int),
                None => None,
            },
            aspect_ratio: match self.aspect_ratio {
                Some(v) => Some(v as int),
                None => None,
            },
            aperture: match self.aperture {
                Some(v) => Some(v as int),
                None => None,
            },
            focus_dist: match self.focus_dist {
                Some(v) => Some(v as int),
                None => None,
            },
        }
    }
}

impl Default for CameraBuilder {
    /// The empty configuration: every field unset.
    fn default() -> (r: CameraBuilder)
        ensures
            r.origin is None && r.look_at is None && r.vup is None && r.vfov is None
                && r.aspect_ratio is None && r.aperture is None && r.focus_dist is None,
    {
        CameraBuilder {
            origin: None,
            look_at: None,
            vup: None,
            vfov: None,
            aspect_ratio: None,
            aperture: None,
            focus_dist: None,
        }
    }
}

/// The view of a build result.
pub open spec fn camera_result_view(r: Result<Camera, CameraBuildError>) -> Result<
    CameraV,
    CameraBuildError,
> {
    match r {
        Ok(c) => Ok(c@),
        Err(e) => Err(e),
    }
}

impl CameraBuilder {
    pub fn origin(self, value: Vec3) -> (r: CameraBuilder)
        ensures
            r@ == (CameraConfigV { origin: Some(value@), ..self@ }),
    {
        CameraBuilder { origin: Some(value), ..self }
    }

    pub fn look_at(self, value: Vec3) -> (r: CameraBuilder)
        ensures
            r@ == (CameraConfigV { look_at: Some(value@), ..self@ }),
    {
        CameraBuilder { look_at: Some(value), ..self }
    }

    pub fn vup(self, value: Vec3) -> (r: CameraBuilder)
        ensures
            r@ == (CameraConfigV { vup: Some(value@), ..self@ }),
    {
        CameraBuilder { vup: Some(value), ..self }
    }

    pub fn vfov(self, value: i64) -> (r: CameraBuilder)
        ensures
            r@ == (CameraConfigV { vfov: Some(value as int), ..self@ }),
    {
        CameraBuilder { vfov: Some(value), ..self }
    }

    pub fn aspect_ratio(self, value: i64) -> (r: CameraBuilder)
        ensures
            r@ == (CameraConfigV { aspect_ratio: Some(value as int), ..self@ }),
    {
        CameraBuilder { aspect_ratio: Some(value), ..self }
    }

    pub fn aperture(self, value: i64) -> (r: CameraBuilder)
        ensures
            r@ == (CameraConfigV { aperture: Some(value as int), ..self@ }),
    {
        CameraBuilder { aperture: Some(value), ..self }
    }

    pub fn focus_dist(self, value: i64) -> (r: CameraBuilder)
        ensures
            r@ == (CameraConfigV { focus_dist: Some(value as int), ..self@ }),
    {
        CameraBuilder { focus_dist: Some(value), ..self }
    }

    /// Build the camera, or report the first validation failure.
    pub fn build(&self) -> (r: Result<Camera, CameraBuildError>)
        ensures
            camera_result_view(r) == camera_build_spec(self@),
            r matches Ok(c) ==> c@.wf(),
    {
        let origin = match self.origin {
            Some(value) => value,
            None => Vec3::zero(),
        };
        let look_at = match self.look_at {
            Some(value) => value,
            None => Vec3::new(0, 0, -SCALE),
        };
        let vup = match self.vup {
            Some(value) => value,
            None => Vec3::new(0, SCALE, 0),
        };
        let vfov = match self.vfov {
            Some(value) => value,
            None => 90 * SCALE,
        };
        let aspect_ratio = match self.aspect_ratio {
            Some(value) => value,
            None => 116508,
        };
        let aperture = match self.aperture {
            Some(value) => value,
            None => 2 * SCALE,
        };
        let focus_dist = match self.focus_dist {
            Some(value) => value,
            None => {
                return Err(CameraBuildError::MissingFocusDistance);
            },
        };
        if !(origin.x <= CAM_MAX && origin.x >= -CAM_MAX && origin.y <= CAM_MAX && origin.y
            >= -CAM_MAX && origin.z <= CAM_MAX && origin.z >= -CAM_MAX && look_at.x <= CAM_MAX
            && look_at.x >= -CAM_MAX && look_at.y <= CAM_MAX && look_at.y >= -CAM_MAX && look_at.z
            <= CAM_MAX && look_at.z >= -CAM_MAX && vup.x <= CAM_MAX && vup.x >= -CAM_MAX && vup.y
            <= CAM_MAX && vup.y >= -CAM_MAX && vup.z <= CAM_MAX && vup.z >= -CAM_MAX && 1
            <= focus_dist && focus_dist <= CAM_MAX && 0 <= aperture && aperture <= CAM_MAX && 1
            <= aspect_ratio && aspect_ratio <= 8192 * SCALE) {
            return Err(CameraBuildError::OutOfRange);
        }
        if !(1 <= vfov && vfov < 180 * SCALE) {
            return Err(CameraBuildError::InvalidFieldOfView);
        }
        let w0 = origin.sub(&look_at);
        if w0.is_near_zero() {
            return Err(CameraBuildError::DegenerateOrientation);
        }
        let w = w0.normalize();
        proof {
            lemma_cross_fixed_range(
                vup@,
                w@,
                CAM_MAX as int,
                SCALE as int,
                2 * (CAM_MAX as int),
            );
        }
        let cu = vup.cross(&w);
        if cu.is_near_zero() {
            return Err(CameraBuildError::DegenerateOrientation);
        }
        let u = cu.normalize();
        proof {
            lemma_cross_fixed_range(w@, u@, SCALE as int, SCALE as int, 2 * (SCALE as int));
        }
        let v = w.cross(&u);
        proof {
            lemma_div_exact_bound((vfov as int / 2) * (PI_FIXED as int), 131072, HALF_CIRCLE_DEG as int);
            assert(0 <= (vfov as int / 2) * (PI_FIXED as int) <= (HALF_CIRCLE_DEG as int) * 131072)
                by (nonlinear_arith)
                requires
                    0 <= vfov as int / 2 <= 90 * (SCALE as int),
                    SCALE == 65536,
                    PI_FIXED == 205887,
                    HALF_CIRCLE_DEG == 11796480,
            ;
            lemma_div_pos_is_pos((vfov as int / 2) * (PI_FIXED as int), HALF_CIRCLE_DEG as int);
            lemma_div_pos_is_pos(vfov as int, 2);
            lemma_div_exact_bound(vfov as int, 90 * (SCALE as int), 2);
        }
        let x = div_floor(((vfov / 2) as i128) * (PI_FIXED as i128), HALF_CIRCLE_DEG as i128)
            as i64;
        let sin = sin_approx(x);
        let cos = cos_approx(x);
        if cos < 1 {
            return Err(CameraBuildError::InvalidFieldOfView);
        }
        proof {
            lemma_div_exact_bound((sin as int) * (SCALE as int), 3 * (SCALE as int) * (
            SCALE as int), cos as int);
            assert(-(cos as int) * (3 * (SCALE as int) * (SCALE as int)) <= (sin as int) * (
            SCALE as int) <= (cos as int) * (3 * (SCALE as int) * (SCALE as int)) && 0 <= 3 * (
            SCALE as int) * (SCALE as int)) by (nonlinear_arith)
                requires
                    -(3 * (SCALE as int)) <= sin as int <= 3 * (SCALE as int),
                    1 <= cos as int,
                    SCALE == 65536,
            ;
        }
        let tan = div_floor((sin as i128) * (SCALE as i128), cos as i128) as i64;
        if !(1 <= tan && 2 * tan <= CAM_MAX) {
            return Err(CameraBuildError::InvalidFieldOfView);
        }
        let view_height = 2 * tan;
        proof {
            lemma_pow_step(
                view_height as int,
                aspect_ratio as int,
                CAM_MAX as int,
                8192 * (SCALE as int),
                8192 * (CAM_MAX as int),
            );
            assert((CAM_MAX as int) * (8192 * (SCALE as int)) <= (SCALE as int) * (8192 * (
            CAM_MAX as int))) by (nonlinear_arith)
                requires
                    SCALE == 65536,
                    CAM_MAX == 67108864,
            ;
        }
        let view_width = div_floor((view_height as i128) * (aspect_ratio as i128), SCALE as i128)
            as i64;
        proof {
            lemma_pow_step(
                focus_dist as int,
                view_height as int,
                CAM_MAX as int,
                CAM_MAX as int,
                68719476736,
            );
            assert((CAM_MAX as int) * (CAM_MAX as int) <= (SCALE as int) * 68719476736)
                by (nonlinear_arith)
                requires
                    SCALE == 65536,
                    CAM_MAX == 67108864,
            ;
        }
        if !(1 <= view_width && view_width <= CAM_MAX) {
            return Err(CameraBuildError::OutOfRange);
        }
        proof {
            lemma_pow_step(
                focus_dist as int,
                view_width as int,
                CAM_MAX as int,
                CAM_MAX as int,
                68719476736,
            );
        }
        let fh = div_floor((focus_dist as i128) * (view_height as i128), SCALE as i128) as i64;
        let fw = div_floor((focus_dist as i128) * (view_width as i128), SCALE as i128) as i64;
        proof {
            lemma_scale_fixed_range(
                v@,
                fh as int,
                2 * (SCALE as int),
                68719476736,
                2097153 * (SCALE as int),
            );
            lemma_scale_fixed_range(
                u@,
                fw as int,
                SCALE as int,
                68719476736,
                1048576 * (SCALE as int),
            );
            assert((2 * (SCALE as int)) * 68719476736 <= (SCALE as int) * (2097153 * (
            SCALE as int)) && (SCALE as int) * 68719476736 <= (SCALE as int) * (1048576 * (
            SCALE as int))) by (nonlinear_arith)
                requires
                    SCALE == 65536,
            ;
        }
        let vertical = v.scale(fh);
        let horizontal = u.scale(fw);
        if !(vertical.x <= CAM_MAX && vertical.x >= -CAM_MAX && vertical.y <= CAM_MAX && vertical.y
            >= -CAM_MAX && vertical.z <= CAM_MAX && vertical.z >= -CAM_MAX && horizontal.x
            <= CAM_MAX && horizontal.x >= -CAM_MAX && horizontal.y <= CAM_MAX && horizontal.y
            >= -CAM_MAX && horizontal.z <= CAM_MAX && horizontal.z >= -CAM_MAX) {
            return Err(CameraBuildError::OutOfRange);
        }
        proof {
            lemma_scale_fixed_range(
                horizontal@,
                32768,
                CAM_MAX as int,
                32768,
                CAM_MAX as int,
            );
            lemma_scale_fixed_range(vertical@, 32768, CAM_MAX as int, 32768, CAM_MAX as int);
            lemma_scale_fixed_range(
                w@,
                focus_dist as int,
                SCALE as int,
                CAM_MAX as int,
                CAM_MAX as int,
            );
            assert((CAM_MAX as int) * 32768 <= (SCALE as int) * (CAM_MAX as int))
                by (nonlinear_arith)
                requires
                    SCALE == 65536,
                    CAM_MAX == 67108864,
            ;
        }
        let top_left_corner = origin.sub(&horizontal.scale(32768)).add(&vertical.scale(32768)).sub(
            &w.scale(focus_dist),
        );
        if !(top_left_corner.x <= CAM_MAX && top_left_corner.x >= -CAM_MAX && top_left_corner.y
            <= CAM_MAX && top_left_corner.y >= -CAM_MAX && top_left_corner.z <= CAM_MAX
            && top_left_corner.z >= -CAM_MAX) {
            return Err(CameraBuildError::OutOfRange);
        }
        Ok(
            Camera {
                origin,
                look_at,
                vup,
                vfov,
                aspect_ratio,
                view_height,
                view_width,
                aperture,
                focus_dist,
                lens_radius: aperture / 2,
                w,
                u,
                v,
                vertical,
                horizontal,
                top_left_corner,
            },
        )
    }
}

} // verus!
