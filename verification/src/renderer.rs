//! The renderer: for every pixel, average many jittered path samples and
//! gamma-correct the result into the framebuffer.
//!
//! Pixels are independent: `render_pixel` computes one pixel from its own
//! seeded generator, so the frame loop here is sequential but a caller may
//! distribute pixels across workers and obtain the same image.

use crate::camera::{camera_build_spec, Camera, CameraBuilder, CameraBuildError, CameraConfigV,
    CameraV};
use crate::canvas::{Canvas, CanvasBuilder, CanvasBuildError, SIDE_MAX};
use crate::fixed::{isqrt, isqrt_spec, lemma_div_exact_bound, SCALE};
use crate::materials::{Material, Scatter, IOR_MAX, IOR_MIN};
use crate::objects::{object_views, scene_materials_ok, Hit, Object, ObjectV, COORD_MAX};
use crate::ray::color_rel;
use crate::rng::RandomSource;
use crate::vec3::{Vec3, V3};
use vstd::arithmetic::div_mod::{lemma_div_pos_is_pos, lemma_multiply_divide_lt};
use vstd::prelude::*;

verus! {

/// Largest supported sample count per pixel.
pub const SAMPLES_MAX: u32 = 65536;

/// Largest supported bounce budget (a machine limit: the resolver recurses).
pub const DEPTH_MAX: u32 = 256;

/// Why a renderer could not be built.
#[derive(Clone, Copy, Debug, PartialEq, Eq, Structural)]
pub enum RendererBuildError {
    /// No scene was given; there is no default scene.
    MissingScene,
    /// No camera was given; a camera needs a focus distance, so there is no
    /// default camera.
    MissingCamera,
    /// An object has a center or radius outside the scene range, a zero
    /// radius, or a material slot past the arena.
    InvalidScene,
    /// A material has an albedo channel outside `[0, 1]`, a fuzziness
    /// outside `[0, 1]`, or a refractive index outside the supported range.
    InvalidMaterial,
    /// The sample count lies outside `[1, SAMPLES_MAX]`.
    InvalidSamples,
    /// The bounce budget lies outside `[1, DEPTH_MAX]`.
    InvalidDepth,
    /// The tonemap exponent is neither one nor two.  Only the identity and
    /// the documented default square-root tonemap have exact fixed-point
    /// kernels here; any other exponent is rejected as a named failure
    /// rather than silently approximated.
    InvalidGamma,
    /// The worker count is zero.
    InvalidThreadCount,
    /// The canvas dimensions were rejected.
    InvalidCanvas(CanvasBuildError),
    /// The camera could not be rebuilt against the canvas aspect ratio.
    InvalidCamera(CameraBuildError),
}

/// One gamma-corrected channel: identity for gamma one, the fixed-point
/// square root for gamma two.
pub open spec fn gamma_channel(x: int, gamma: int) -> int {
    if gamma == SCALE as int {
        x
    } else {
        isqrt_spec((x * (SCALE as int)) as nat) as int
    }
}

/// The gamma-corrected color.
pub open spec fn gamma_spec(c: V3, gamma: int) -> V3 {
    V3 {
        x: gamma_channel(c.x, gamma),
        y: gamma_channel(c.y, gamma),
        z: gamma_channel(c.z, gamma),
    }
}

/// Apply the tonemap `x ^ (1 / gamma)` to a color, exactly as
/// `gamma_spec` states it.
pub fn gamma_correct(c: &Vec3, gamma: i64) -> (r: Vec3)
    requires
        c@.is_color(),
        gamma == SCALE || gamma == 2 * SCALE,
    ensures
        r@ == gamma_spec(c@, gamma as int),
        r@.is_color(),
{
    if gamma == SCALE {
        *c
    } else {
        let x = gamma_sqrt_channel(c.x);
        let y = gamma_sqrt_channel(c.y);
        let z = gamma_sqrt_channel(c.z);
        Vec3 { x, y, z }
    }
}

/// The square root of one channel value in `[0, 1]` stays in `[0, 1]`.
fn gamma_sqrt_channel(x: i64) -> (r: i64)
    requires
        0 <= x <= SCALE,
    ensures
        r == isqrt_spec((x * (SCALE as int)) as nat),
        0 <= r <= SCALE,
{
    proof {
        assert(0 <= (x as int) * (SCALE as int) <= 4294967296) by (nonlinear_arith)
            requires
                0 <= x as int <= 65536,
        ;
    }
    let w = isqrt(((x as i128) * (SCALE as i128)) as u128);
    proof {
        assert((w as int) <= SCALE as int) by (nonlinear_arith)
            requires
                (w as int) * (w as int) <= (x as int) * (SCALE as int),
                0 <= x <= SCALE as int,
                w >= 0,
                SCALE == 65536,
        ;
    }
    w as i64
}

/// One admissible Monte-Carlo sample for the pixel in column `i` of row
/// `j`: some jitter pair in `[0, 1)` and some lens sample in the unit disk
/// determine the camera ray through the jittered image-plane coordinates,
/// and the color is admissible for that ray under `color_rel`.
pub open spec fn sample_rel(
    cam: CameraV,
    objs: Seq<ObjectV>,
    mats: Seq<Material>,
    w: int,
    h: int,
    depth: int,
    i: int,
    j: int,
    c: V3,
) -> bool {
    exists|ju: int, jv: int, rd: V3|
        #![trigger cam.ray_spec((i * (SCALE as int) + ju) / (w - 1), (j * (SCALE as int) + jv) / (h - 1), rd)]
        {
            &&& 0 <= ju < SCALE as int
            &&& 0 <= jv < SCALE as int
            &&& rd.dot_raw(rd) < (SCALE as int) * (SCALE as int)
            &&& rd.in_range(SCALE as int)
            &&& rd.z == 0
            &&& color_rel(
                objs,
                mats,
                cam.ray_spec(
                    (i * (SCALE as int) + ju) / (w - 1),
                    (j * (SCALE as int) + jv) / (h - 1),
                    rd,
                ),
                depth,
                c,
            )
        }
}

/// The component-wise sum of a sequence of colors.
pub open spec fn color_sum(cs: Seq<V3>) -> V3
    decreases cs.len(),
{
    if cs.len() == 0 {
        V3 { x: 0, y: 0, z: 0 }
    } else {
        color_sum(cs.drop_last()).add3(cs.last())
    }
}

/// The admissible values of one rendered pixel: for some sequence of
/// `samples` admissible per-sample colors, the pixel is their average,
/// gamma-corrected.
pub open spec fn pixel_outcome(
    cam: CameraV,
    objs: Seq<ObjectV>,
    mats: Seq<Material>,
    w: int,
    h: int,
    samples: int,
    depth: int,
    gamma: int,
    i: int,
    j: int,
    c: V3,
) -> bool {
    exists|cs: Seq<V3>|
        #![trigger color_sum(cs)]
        {
            &&& cs.len() == samples
            &&& forall|m: int|
                0 <= m < cs.len() ==> sample_rel(
                    cam,
                    objs,
                    mats,
                    w,
                    h,
                    depth,
                    i,
                    j,
                    #[trigger] cs[m],
                )
            &&& c == gamma_spec(
                V3 {
                    x: color_sum(cs).x / samples,
                    y: color_sum(cs).y / samples,
                    z: color_sum(cs).z / samples,
                },
                gamma,
            )
        }
}

/// The three channels of the pixel at row-major index `p` in a framebuffer.
pub open spec fn pixel_at(buf: Seq<int>, p: int) -> V3 {
    V3 { x: buf[3 * p], y: buf[3 * p + 1], z: buf[3 * p + 2] }
}

/// A buffer of raw channel values, as the mathematical sequence a canvas
/// view holds.
pub open spec fn channel_ints(b: Seq<i64>) -> Seq<int> {
    Seq::new(b.len(), |q: int| b[q] as int)
}

/// The renderer: sampling parameters, camera, framebuffer, and the scene
/// with its material arena.
#[derive(Debug)]
pub struct Renderer {
    pub samples: u32,
    pub max_depth: u32,
    pub thread_count: u32,
    pub gamma: i64,
    pub seed: u64,
    pub camera: Camera,
    pub canvas: Canvas,
    pub scene_objects: Vec<Object>,
    pub materials: Vec<Material>,
}

impl Renderer {
    /// Renderers `render` accepts: validated parameters, a well-formed
    /// camera and canvas, and a scene whose material slots index the arena.
    pub open spec fn wf(&self) -> bool {
        &&& 1 <= self.samples <= SAMPLES_MAX
        &&& 1 <= self.max_depth <= DEPTH_MAX
        &&& 1 <= self.thread_count
        &&& self.gamma == SCALE || self.gamma == 2 * SCALE
        &&& self.camera@.wf()
        &&& self.canvas@.wf()
        &&& self.scene_objects.hit_wf()
        &&& scene_materials_ok(self.scene_objects@, self.materials@.len() as int)
        &&& forall|i: int|
            0 <= i < self.materials@.len() ==> (#[trigger] self.materials@[i]).scatter_wf()
    }

    /// One pixel: average `samples` jittered path samples through the
    /// camera, then gamma-correct.  The pixel's randomness comes entirely
    /// from `rng`, so a seeded generator reproduces the pixel.
    pub fn render_pixel(&self, i: u32, j: u32, rng: &mut RandomSource) -> (r: Vec3)
        requires
            self.wf(),
            i < self.canvas.width,
            j < self.canvas.height,
        ensures
            r@.is_color(),
            pixel_outcome(
                self.camera@,
                object_views(self.scene_objects@),
                self.materials@,
                self.canvas.width as int,
                self.canvas.height as int,
                self.samples as int,
                self.max_depth as int,
                self.gamma as int,
                i as int,
                j as int,
                r@,
            ),
    {
        let ghost wi = self.canvas.width as int;
        let ghost hi = self.canvas.height as int;
        let ghost views = object_views(self.scene_objects@);
        let ghost mut cs: Seq<V3> = Seq::<V3>::empty();
        let mut acc = Vec3::zero();
        let mut k: u32 = 0;
        while k < self.samples
            invariant
                self.wf(),
                i < self.canvas.width,
                j < self.canvas.height,
                0 <= k <= self.samples,
                0 <= acc@.x <= k * (SCALE as int),
                0 <= acc@.y <= k * (SCALE as int),
                0 <= acc@.z <= k * (SCALE as int),
                wi == self.canvas.width as int,
                hi == self.canvas.height as int,
                views == object_views(self.scene_objects@),
                cs.len() == k,
                acc@ == color_sum(cs),
                forall|m: int|
                    0 <= m < cs.len() ==> sample_rel(
                        self.camera@,
                        views,
                        self.materials@,
                        wi,
                        hi,
                        self.max_depth as int,
                        i as int,
                        j as int,
                        #[trigger] cs[m],
                    ),
            decreases self.samples - k,
        {
            let ju = rng.next_in(0, SCALE);
            let jv = rng.next_in(0, SCALE);
            let wm1 = (self.canvas.width - 1) as i64;
            let hm1 = (self.canvas.height - 1) as i64;
            proof {
                lemma_sample_coord_bound(i as int, ju as int, wm1 as int);
                lemma_sample_coord_bound(j as int, jv as int, hm1 as int);
            }
            let u = ((i as i64) * SCALE + ju) / wm1;
            let v = ((j as i64) * SCALE + jv) / hm1;
            let ray = self.camera.get_ray(u, v, rng);
            let c = ray.get_color(&self.scene_objects, &self.materials, self.max_depth, rng);
            proof {
                let rdw = choose|rd: V3|
                    rd.dot_raw(rd) < (SCALE as int) * (SCALE as int) && rd.in_range(SCALE as int)
                        && rd.z == 0 && ray@ == self.camera@.ray_spec(u as int, v as int, rd);
                assert(u as int == ((i as int) * (SCALE as int) + ju) / (wi - 1));
                assert(v as int == ((j as int) * (SCALE as int) + jv) / (hi - 1));
                assert(color_rel(
                    views,
                    self.materials@,
                    self.camera@.ray_spec(
                        ((i as int) * (SCALE as int) + ju) / (wi - 1),
                        ((j as int) * (SCALE as int) + jv) / (hi - 1),
                        rdw,
                    ),
                    self.max_depth as int,
                    c@,
                ));
                assert(sample_rel(
                    self.camera@,
                    views,
                    self.materials@,
                    wi,
                    hi,
                    self.max_depth as int,
                    i as int,
                    j as int,
                    c@,
                ));
                let cs0 = cs;
                cs = cs.push(c@);
                assert(cs.drop_last() =~= cs0);
                assert(cs.last() == c@);
            }
            acc = acc.add(&c);
            k = k + 1;
        }
        proof {
            lemma_div_pos_is_pos(acc@.x, self.samples as int);
            lemma_div_pos_is_pos(acc@.y, self.samples as int);
            lemma_div_pos_is_pos(acc@.z, self.samples as int);
            lemma_div_exact_bound(acc@.x, SCALE as int, self.samples as int);
            lemma_div_exact_bound(acc@.y, SCALE as int, self.samples as int);
            lemma_div_exact_bound(acc@.z, SCALE as int, self.samples as int);
        }
        let n = self.samples as i64;
        let avg = Vec3 { x: acc.x / n, y: acc.y / n, z: acc.z / n };
        let out = gamma_correct(&avg, self.gamma);
        proof {
            assert(avg@ == (V3 {
                x: color_sum(cs).x / (self.samples as int),
                y: color_sum(cs).y / (self.samples as int),
                z: color_sum(cs).z / (self.samples as int),
            }));
            assert(cs.len() == self.samples as int);
            assert(pixel_outcome(
                self.camera@,
                views,
                self.materials@,
                wi,
                hi,
                self.samples as int,
                self.max_depth as int,
                self.gamma as int,
                i as int,
                j as int,
                out@,
            ));
        }
        out
    }

    /// The whole frame: row-major over all pixels, one seeded generator per
    /// pixel (`seed + pixel index`), writing three channels per pixel.  Only
    /// the framebuffer changes.
    pub fn render(&mut self)
        requires
            old(self).wf(),
        ensures
            final(self).wf(),
            final(self).canvas.width == old(self).canvas.width,
            final(self).canvas.height == old(self).canvas.height,
            final(self).canvas.aspect_ratio == old(self).canvas.aspect_ratio,
            final(self).camera == old(self).camera,
            final(self).scene_objects == old(self).scene_objects,
            final(self).materials == old(self).materials,
            final(self).samples == old(self).samples,
            final(self).max_depth == old(self).max_depth,
            final(self).gamma == old(self).gamma,
            final(self).seed == old(self).seed,
            final(self).thread_count == old(self).thread_count,
            final(self).canvas@.buffer.len() == old(self).canvas@.width * old(self).canvas@.height
                * 3,
            forall|i: int|
                0 <= i < final(self).canvas@.buffer.len() ==> 0 <= #[trigger] final(
                self).canvas@.buffer[i] <= SCALE as int,
            forall|p: int|
                0 <= p < old(self).canvas@.width * old(self).canvas@.height ==> pixel_outcome(
                    old(self).camera@,
                    object_views(old(self).scene_objects@),
                    old(self).materials@,
                    old(self).canvas@.width,
                    old(self).canvas@.height,
                    old(self).samples as int,
                    old(self).max_depth as int,
                    old(self).gamma as int,
                    p % old(self).canvas@.width,
                    p / old(self).canvas@.width,
                    #[trigger] pixel_at(final(self).canvas@.buffer, p),
                ),
    {
        let w = self.canvas.width;
        let h = self.canvas.height;
        proof {
            assert(0 <= (w as int) * (h as int) <= 268435456) by (nonlinear_arith)
                requires
                    2 <= w as int <= 16384,
                    2 <= h as int <= 16384,
            ;
        }
        let total: usize = (w as usize) * (h as usize);
        let mut buffer: Vec<i64> = Vec::new();
        let mut p: usize = 0;
        while p < total
            invariant
                *self == *old(self),
                self.wf(),
                w == self.canvas.width,
                h == self.canvas.height,
                total == (w as int) * (h as int),
                total <= 268435456,
                0 <= p <= total,
                buffer@.len() == 3 * p,
                forall|q: int| 0 <= q < buffer@.len() ==> 0 <= #[trigger] buffer@[q] <= SCALE as int,
                forall|q: int|
                    0 <= q < p ==> pixel_outcome(
                        self.camera@,
                        object_views(self.scene_objects@),
                        self.materials@,
                        w as int,
                        h as int,
                        self.samples as int,
                        self.max_depth as int,
                        self.gamma as int,
                        q % (w as int),
                        q / (w as int),
                        #[trigger] pixel_at(channel_ints(buffer@), q),
                    ),
            decreases total - p,
        {
            let i = (p % (w as usize)) as u32;
            let j = (p / (w as usize)) as u32;
            proof {
                lemma_multiply_divide_lt(p as int, w as int, h as int);
                assert(p as int % (w as int) < w as int) by (nonlinear_arith)
                    requires
                        w as int > 0,
                        p as int >= 0,
                        p as int % (w as int) == (p as int) % (w as int),
                {
                    vstd::arithmetic::div_mod::lemma_mod_division_less_than_divisor(
                        p as int,
                        w as int,
                    );
                }
            }
            let mut prng = RandomSource::seeded(self.seed.wrapping_add(p as u64));
            let c = self.render_pixel(i, j, &mut prng);
            let ghost prev = buffer@;
            buffer.push(c.x);
            buffer.push(c.y);
            buffer.push(c.z);
            proof {
                assert forall|q: int| 0 <= q < p + 1 implies pixel_outcome(
                    self.camera@,
                    object_views(self.scene_objects@),
                    self.materials@,
                    w as int,
                    h as int,
                    self.samples as int,
                    self.max_depth as int,
                    self.gamma as int,
                    q % (w as int),
                    q / (w as int),
                    #[trigger] pixel_at(channel_ints(buffer@), q),
                ) by {
                    if q < p {
                        assert(pixel_at(channel_ints(buffer@), q) == pixel_at(
                            channel_ints(prev),
                            q,
                        ));
                    } else {
                        assert(pixel_at(channel_ints(buffer@), p as int) == c@);
                        assert(i as int == p as int % (w as int));
                        assert(j as int == p as int / (w as int));
                    }
                }
            }
            p = p + 1;
        }
        self.canvas.buffer = buffer;
        proof {
            assert(final(self).canvas@.buffer =~= channel_ints(buffer@));
        }
    }
}

/// A jittered sample coordinate `(i + jitter) / (side - 1)` stays within
/// twice the unit when `i` is a pixel index on that side.
proof fn lemma_sample_coord_bound(i: int, jitter: int, side_m1: int)
    requires
        0 <= i <= side_m1,
        1 <= side_m1,
        0 <= jitter < SCALE as int,
    ensures
        0 <= (i * (SCALE as int) + jitter) / side_m1 <= 2 * (SCALE as int),
{
    let s = SCALE as int;
    assert(0 <= i * s + jitter <= side_m1 * (2 * s)) by (nonlinear_arith)
        requires
            0 <= i <= side_m1,
            1 <= side_m1,
            0 <= jitter < s,
            s == 65536,
    ;
    lemma_div_pos_is_pos(i * s + jitter, side_m1);
    lemma_div_exact_bound(i * s + jitter, 2 * s, side_m1);
}

/// Configuration for a renderer; unset fields take their documented
/// defaults: 50 samples, a bounce budget of 25, 8 workers, gamma two, seed
/// zero, a default canvas, an empty material arena.  The scene and the
/// camera have no defaults.
#[derive(Debug)]
pub struct RendererBuilder {
    pub samples: Option<u32>,
    pub max_depth: Option<u32>,
    pub thread_count: Option<u32>,
    pub gamma: Option<i64>,
    pub seed: Option<u64>,
    pub camera: Option<Camera>,
    pub canvas: Option<Canvas>,
    pub scene_objects: Option<Vec<Object>>,
    pub materials: Option<Vec<Material>>,
}

impl Default for RendererBuilder {
    /// The empty configuration: every field unset.
    fn default() -> (r: RendererBuilder)
        ensures
            r.samples is None && r.max_depth is None && r.thread_count is None && r.gamma is None
                && r.seed is None && r.camera is None && r.canvas is None && r.scene_objects
                is None && r.materials is None,
    {
        RendererBuilder {
            samples: None,
            max_depth: None,
            thread_count: None,
            gamma: None,
            seed: None,
            camera: None,
            canvas: None,
            scene_objects: None,
            materials: None,
        }
    }
}

impl RendererBuilder {
    pub fn samples(self, value: u32) -> (r: RendererBuilder)
        ensures
            r == (RendererBuilder { samples: Some(value), ..self }),
    {
        RendererBuilder { samples: Some(value), ..self }
    }

    pub fn max_depth(self, value: u32) -> (r: RendererBuilder)
        ensures
            r == (RendererBuilder { max_depth: Some(value), ..self }),
    {
        RendererBuilder { max_depth: Some(value), ..self }
    }

    pub fn thread_count(self, value: u32) -> (r: RendererBuilder)
        ensures
            r == (RendererBuilder { thread_count: Some(value), ..self }),
    {
        RendererBuilder { thread_count: Some(value), ..self }
    }

    pub fn gamma(self, value: i64) -> (r: RendererBuilder)
        ensures
            r == (RendererBuilder { gamma: Some(value), ..self }),
    {
        RendererBuilder { gamma: Some(value), ..self }
    }

    pub fn seed(self, value: u64) -> (r: RendererBuilder)
        ensures
            r == (RendererBuilder { seed: Some(value), ..self }),
    {
        RendererBuilder { seed: Some(value), ..self }
    }

    pub fn camera(self, value: Camera) -> (r: RendererBuilder)
        ensures
            r == (RendererBuilder { camera: Some(value), ..self }),
    {
        RendererBuilder { camera: Some(value), ..self }
    }

    pub fn canvas(self, value: Canvas) -> (r: RendererBuilder)
        ensures
            r == (RendererBuilder { canvas: Some(value), ..self }),
    {
        RendererBuilder { canvas: Some(value), ..self }
    }

    pub fn scene_objects(self, value: Vec<Object>) -> (r: RendererBuilder)
        ensures
            r == (RendererBuilder { scene_objects: Some(value), ..self }),
    {
        RendererBuilder { scene_objects: Some(value), ..self }
    }

    pub fn materials(self, value: Vec<Material>) -> (r: RendererBuilder)
        ensures
            r == (RendererBuilder { materials: Some(value), ..self }),
    {
        RendererBuilder { materials: Some(value), ..self }
    }

    /// Build the renderer, or report the first validation failure.  The
    /// camera is rebuilt against the canvas's aspect ratio, as the frame,
    /// not the camera configuration, decides the viewport's proportions.
    pub fn build(self) -> (r: Result<Renderer, RendererBuildError>)
        ensures
            r is Ok <==> renderer_cfg_valid(self),
            r matches Ok(rd) ==> rd.wf(),
            r matches Ok(rd) ==> {
                &&& rd.samples as int == opt_u32_or(self.samples, 50)
                &&& rd.max_depth as int == opt_u32_or(self.max_depth, 25)
                &&& rd.thread_count as int == opt_u32_or(self.thread_count, 8)
                &&& self.gamma matches Some(g) ==> rd.gamma == g
                &&& self.gamma is None ==> rd.gamma == 2 * SCALE
                &&& self.seed matches Some(sd) ==> rd.seed == sd
                &&& self.seed is None ==> rd.seed == 0
                &&& self.scene_objects matches Some(objs) && rd.scene_objects == objs
                &&& self.materials matches Some(ms) ==> rd.materials == ms
                &&& self.materials is None ==> rd.materials@.len() == 0
                &&& self.camera matches Some(cam) && camera_build_spec(
                    rebuild_camera_cfg(cam@, rd.canvas@.aspect_ratio),
                ) == Ok::<crate::camera::CameraV, CameraBuildError>(rd.camera@)
                &&& rd.canvas@.wf()
                &&& rd.canvas@.width == (match self.canvas {
                    Some(c) => c.width as int,
                    None => 960,
                })
                &&& rd.canvas@.height == (match self.canvas {
                    Some(c) => c.height as int,
                    None => 540,
                })
                &&& forall|q: int|
                    0 <= q < rd.canvas@.buffer.len() ==> #[trigger] rd.canvas@.buffer[q] == 0
            },
            r == Err::<Renderer, RendererBuildError>(RendererBuildError::MissingScene)
                ==> self.scene_objects is None,
            r == Err::<Renderer, RendererBuildError>(RendererBuildError::MissingCamera)
                ==> self.camera is None,
    {
        let samples = match self.samples {
            Some(value) => value,
            None => 50,
        };
        if samples < 1 || samples > SAMPLES_MAX {
            return Err(RendererBuildError::InvalidSamples);
        }
        let max_depth = match self.max_depth {
            Some(value) => value,
            None => 25,
        };
        if max_depth < 1 || max_depth > DEPTH_MAX {
            return Err(RendererBuildError::InvalidDepth);
        }
        let thread_count = match self.thread_count {
            Some(value) => value,
            None => 8,
        };
        if thread_count < 1 {
            return Err(RendererBuildError::InvalidThreadCount);
        }
        let gamma = match self.gamma {
            Some(value) => value,
            None => 2 * SCALE,
        };
        if !(gamma == SCALE || gamma == 2 * SCALE) {
            return Err(RendererBuildError::InvalidGamma);
        }
        let seed = match self.seed {
            Some(value) => value,
            None => 0,
        };
        let (cw, ch) = match self.canvas {
            Some(ref c) => (c.width, c.height),
            None => (960u32, 540u32),
        };
        let canvas = match (CanvasBuilder::default().width(cw).height(ch)).build() {
            Ok(c) => c,
            Err(e) => {
                return Err(RendererBuildError::InvalidCanvas(e));
            },
        };
        let camera0 = match self.camera {
            Some(value) => value,
            None => {
                return Err(RendererBuildError::MissingCamera);
            },
        };
        let rebuilt = CameraBuilder {
            origin: Some(camera0.origin),
            look_at: Some(camera0.look_at),
            vup: Some(camera0.vup),
            vfov: Some(camera0.vfov),
            aspect_ratio: Some(canvas.aspect_ratio),
            aperture: Some(camera0.aperture),
            focus_dist: Some(camera0.focus_dist),
        };
        let camera = match rebuilt.build() {
            Ok(c) => c,
            Err(e) => {
                return Err(RendererBuildError::InvalidCamera(e));
            },
        };
        let scene_objects = match self.scene_objects {
            Some(value) => value,
            None => {
                return Err(RendererBuildError::MissingScene);
            },
        };
        let materials = match self.materials {
            Some(value) => value,
            None => Vec::new(),
        };
        proof {
            assert(cfg_materials(self) =~= materials@);
        }
        let mut mi: usize = 0;
        while mi < materials.len()
            invariant
                0 <= mi <= materials@.len(),
                cfg_materials(self) == materials@,
                forall|k: int| 0 <= k < mi ==> (#[trigger] materials@[k]).scatter_wf(),
            decreases materials@.len() - mi,
        {
            let ok = match &materials[mi] {
                Material::Diffuse(m) => color_ok(&m.albedo),
                Material::Metal(m) => color_ok(&m.albedo) && 0 <= m.fuzziness && m.fuzziness
                    <= SCALE,
                Material::Glass(m) => color_ok(&m.albedo) && IOR_MIN <= m.ir && m.ir <= IOR_MAX,
            };
            if !ok {
                proof {
                    assert(!(cfg_materials(self)[mi as int]).scatter_wf());
                    assert(!renderer_cfg_valid(self));
                }
                return Err(RendererBuildError::InvalidMaterial);
            }
            mi = mi + 1;
        }
        let mut oi: usize = 0;
        while oi < scene_objects.len()
            invariant
                0 <= oi <= scene_objects@.len(),
                self.scene_objects == Some(scene_objects),
                cfg_materials(self) == materials@,
                forall|k: int| 0 <= k < oi ==> (#[trigger] scene_objects@[k])@.wf(),
                forall|k: int|
                    0 <= k < oi ==> 0 <= (#[trigger] scene_objects@[k])@.material_index()
                        < materials@.len(),
            decreases scene_objects@.len() - oi,
        {
            let ok = match &scene_objects[oi] {
                Object::Sphere(sp) => sp.center.x <= COORD_MAX && sp.center.x >= -COORD_MAX
                    && sp.center.y <= COORD_MAX && sp.center.y >= -COORD_MAX && sp.center.z
                    <= COORD_MAX && sp.center.z >= -COORD_MAX && sp.radius != 0 && sp.radius
                    <= COORD_MAX && sp.radius >= -COORD_MAX && sp.material < materials.len(),
            };
            if !ok {
                proof {
                    assert(self.scene_objects.unwrap()@[oi as int] == scene_objects@[oi as int]);
                    assert(!((scene_objects@[oi as int])@.wf() && 0 <= (
                    scene_objects@[oi as int])@.material_index() < cfg_materials(self).len()));
                    assert(!renderer_cfg_valid(self));
                }
                return Err(RendererBuildError::InvalidScene);
            }
            oi = oi + 1;
        }
        Ok(
            Renderer {
                samples,
                max_depth,
                thread_count,
                gamma,
                seed,
                camera,
                canvas,
                scene_objects,
                materials,
            },
        )
    }
}

/// A field or its documented default.
pub open spec fn opt_u32_or(o: Option<u32>, dflt: int) -> int {
    match o {
        Some(v) => v as int,
        None => dflt,
    }
}

/// The material arena a configuration denotes: the given one, or empty.
pub open spec fn cfg_materials(b: RendererBuilder) -> Seq<Material> {
    match b.materials {
        Some(m) => m@,
        None => Seq::<Material>::empty(),
    }
}

/// Exactly the configurations `RendererBuilder::build` accepts.
pub open spec fn renderer_cfg_valid(b: RendererBuilder) -> bool {
    let samples = opt_u32_or(b.samples, 50);
    let depth = opt_u32_or(b.max_depth, 25);
    let threads = opt_u32_or(b.thread_count, 8);
    let gamma = match b.gamma {
        Some(g) => g as int,
        None => 2 * (SCALE as int),
    };
    let cw = match b.canvas {
        Some(c) => c.width as int,
        None => 960,
    };
    let ch = match b.canvas {
        Some(c) => c.height as int,
        None => 540,
    };
    &&& 1 <= samples <= SAMPLES_MAX as int
    &&& 1 <= depth <= DEPTH_MAX as int
    &&& 1 <= threads
    &&& gamma == SCALE as int || gamma == 2 * (SCALE as int)
    &&& 2 <= cw <= SIDE_MAX as int
    &&& 2 <= ch <= SIDE_MAX as int
    &&& b.camera is Some
    &&& camera_build_spec(
        rebuild_camera_cfg(b.camera.unwrap()@, (cw * (SCALE as int)) / ch),
    ) is Ok
    &&& b.scene_objects is Some
    &&& forall|i: int|
        0 <= i < cfg_materials(b).len() ==> (#[trigger] cfg_materials(b)[i]).scatter_wf()
    &&& forall|i: int|
        0 <= i < b.scene_objects.unwrap()@.len() ==> (#[trigger] b.scene_objects.unwrap()@[i])@.wf()
    &&& scene_materials_ok(b.scene_objects.unwrap()@, cfg_materials(b).len() as int)
}

/// The camera configuration that rebuilding against a canvas uses: the
/// camera's own inputs with the canvas's aspect ratio.
pub open spec fn rebuild_camera_cfg(cam: crate::camera::CameraV, aspect: int) -> CameraConfigV {
    CameraConfigV {
        origin: Some(cam.origin),
        look_at: Some(cam.look_at),
        vup: Some(cam.vup),
        vfov: Some(cam.vfov),
        aspect_ratio: Some(aspect),
        aperture: Some(cam.aperture),
        focus_dist: Some(cam.focus_dist),
    }
}

/// Whether every channel of a color lies in `[0, 1]`.
fn color_ok(c: &Vec3) -> (r: bool)
    ensures
        r == c@.is_color(),
{
    0 <= c.x && c.x <= SCALE && 0 <= c.y && c.y <= SCALE && 0 <= c.z && c.z <= SCALE
}

} // verus!
