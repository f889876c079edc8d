//! Intersection, scattering, path color and full renders on concrete
//! scenes.

use pathtracer::camera::{CameraBuilder, CameraBuildError};
use pathtracer::canvas::{channel_to_byte, Canvas, CanvasBuilder, CanvasBuildError};
use pathtracer::fixed::SCALE;
use pathtracer::materials::{Diffuse, Glass, Material, MaterialError, Metal, Scatter};
use pathtracer::objects::{Hit, Object, Sphere};
use pathtracer::primitive_types::Reflect;
use pathtracer::ray::{HitRecord, Ray, T_EPS, T_FAR};
use pathtracer::renderer::{gamma_correct, Renderer, RendererBuilder, RendererBuildError};
use pathtracer::rng::{random_in_unit_disk, random_in_unit_sphere, RandomSource};
use pathtracer::vec3::Vec3;

fn unit_sphere_scene() -> (Vec<Object>, Vec<Material>) {
    let materials = vec![Material::Diffuse(
        Diffuse::new(Vec3::new(SCALE / 2, SCALE / 2, SCALE / 2)).unwrap(),
    )];
    let objects = vec![Object::Sphere(Sphere {
        center: Vec3::new(0, 0, -SCALE),
        radius: SCALE / 2,
        material: 0,
    })];
    (objects, materials)
}

#[test]
fn sphere_hit_head_on_from_outside() {
    // A ray from the origin at a sphere of radius 0.5 centered one unit down
    // the -z axis strikes it at t = 0.5, on the outside.
    let sphere = Sphere { center: Vec3::new(0, 0, -SCALE), radius: SCALE / 2, material: 0 };
    let ray = Ray { origin: Vec3::new(0, 0, 0), direction: Vec3::new(0, 0, -SCALE) };
    let rec = sphere.hit(&ray, T_EPS, T_FAR).expect("must hit");
    assert_eq!(rec.t, SCALE / 2);
    assert!(rec.front_face);
    assert_eq!((rec.point.x, rec.point.y, rec.point.z), (0, 0, -SCALE / 2));
    assert_eq!((rec.normal.x, rec.normal.y, rec.normal.z), (0, 0, SCALE));
    assert_eq!(rec.material, 0);
}

#[test]
fn sphere_hit_from_inside_flips_normal() {
    let sphere = Sphere { center: Vec3::new(0, 0, -SCALE), radius: SCALE / 2, material: 0 };
    let ray = Ray { origin: Vec3::new(0, 0, -SCALE), direction: Vec3::new(0, 0, -SCALE) };
    let rec = sphere.hit(&ray, T_EPS, T_FAR).expect("must hit");
    assert_eq!(rec.t, SCALE / 2);
    assert!(!rec.front_face);
    // The outward normal points along -z; stored flipped toward the ray.
    assert_eq!((rec.normal.x, rec.normal.y, rec.normal.z), (0, 0, SCALE));
}

#[test]
fn sphere_hit_idempotent_under_narrowed_interval() {
    let sphere = Sphere { center: Vec3::new(0, 0, -SCALE), radius: SCALE / 2, material: 0 };
    let ray = Ray { origin: Vec3::new(0, 0, 0), direction: Vec3::new(0, 0, -SCALE) };
    let first = sphere.hit(&ray, T_EPS, T_FAR).expect("must hit");
    let narrowed = sphere.hit(&ray, 30000, 40000).expect("must still hit");
    assert_eq!(first.t, narrowed.t);
    assert_eq!(first.point, narrowed.point);
    assert_eq!(first.normal, narrowed.normal);
    assert_eq!(first.front_face, narrowed.front_face);
}

#[test]
fn scene_keeps_closest_hit_regardless_of_order() {
    let near = Object::Sphere(Sphere {
        center: Vec3::new(0, 0, -SCALE),
        radius: SCALE / 2,
        material: 0,
    });
    let far = Object::Sphere(Sphere {
        center: Vec3::new(0, 0, -4 * SCALE),
        radius: SCALE / 2,
        material: 1,
    });
    let ray = Ray { origin: Vec3::new(0, 0, 0), direction: Vec3::new(0, 0, -SCALE) };
    let one: Vec<Object> = vec![near, far];
    let two: Vec<Object> = vec![far, near];
    let a = one.hit(&ray, T_EPS, T_FAR).expect("must hit");
    let b = two.hit(&ray, T_EPS, T_FAR).expect("must hit");
    assert_eq!(a.t, SCALE / 2);
    assert_eq!(b.t, SCALE / 2);
    assert_eq!(a.material, 0);
    assert_eq!(b.material, 0);
}

#[test]
fn hollow_sphere_negative_radius_hits() {
    let shell = Sphere { center: Vec3::new(0, 0, -SCALE), radius: -(SCALE / 2), material: 0 };
    let ray = Ray { origin: Vec3::new(0, 0, 0), direction: Vec3::new(0, 0, -SCALE) };
    let rec = shell.hit(&ray, T_EPS, T_FAR).expect("must hit");
    // Same root; the negative radius flips the outward normal, so the shell
    // is struck on its inward face.
    assert_eq!(rec.t, SCALE / 2);
    assert!(!rec.front_face);
}

#[test]
fn ray_evaluation_and_face_normal() {
    let ray = Ray { origin: Vec3::new(SCALE, 0, 0), direction: Vec3::new(0, 2 * SCALE, 0) };
    let p = ray.at(SCALE / 2);
    assert_eq!((p.x, p.y, p.z), (SCALE, SCALE, 0));
    let mut rec = HitRecord::new(3);
    assert_eq!(rec.material, 3);
    assert!(rec.front_face);
    // A ray moving down against an upward outward normal strikes the front.
    let down = Ray { origin: Vec3::new(0, SCALE, 0), direction: Vec3::new(0, -SCALE, 0) };
    rec.set_face_normal(&down, Vec3::new(0, SCALE, 0));
    assert!(rec.front_face);
    assert_eq!((rec.normal.x, rec.normal.y, rec.normal.z), (0, SCALE, 0));
    // The same normal seen from the other side is flipped.
    let up = Ray { origin: Vec3::new(0, -SCALE, 0), direction: Vec3::new(0, SCALE, 0) };
    rec.set_face_normal(&up, Vec3::new(0, SCALE, 0));
    assert!(!rec.front_face);
    assert_eq!((rec.normal.x, rec.normal.y, rec.normal.z), (0, -SCALE, 0));
}

#[test]
fn metal_with_zero_fuzz_reflects_exactly() {
    let metal = Metal::new(Vec3::new(SCALE, SCALE / 2, SCALE / 4), 0).unwrap();
    let ray = Ray { origin: Vec3::new(-SCALE, SCALE, 0), direction: Vec3::new(SCALE, -SCALE, 0) };
    let rec = HitRecord {
        point: Vec3::new(0, 0, 0),
        normal: Vec3::new(0, SCALE, 0),
        t: SCALE,
        front_face: true,
        material: 0,
    };
    let expected = ray.direction.normalize().reflect(&rec.normal);
    assert!((expected.x - 46341).abs() <= 2);
    assert!((expected.y - 46341).abs() <= 2);
    assert_eq!(expected.z, 0);
    let mut rng = RandomSource::seeded(7);
    for _ in 0..16 {
        let (out, att) = metal.scatter(&ray, &rec, &mut rng);
        let out = out.expect("upward reflection must scatter");
        assert_eq!(out.direction, expected);
        assert_eq!((out.origin.x, out.origin.y, out.origin.z), (0, 0, 0));
        assert_eq!((att.x, att.y, att.z), (SCALE, SCALE / 2, SCALE / 4));
    }
}

#[test]
fn metal_absorbs_rays_reflected_into_surface() {
    // Fuzz 0 and a grazing setup whose reflection still points into the
    // surface: dot(reflect, normal) < 0 means absorption.
    let metal = Metal::new(Vec3::new(SCALE, SCALE, SCALE), 0).unwrap();
    let ray = Ray { origin: Vec3::new(0, SCALE, 0), direction: Vec3::new(0, -SCALE, 0) };
    // A normal pointing along -y (as after flipping) sends the reflection
    // back down.
    let rec = HitRecord {
        point: Vec3::new(0, 0, 0),
        normal: Vec3::new(0, -SCALE, 0),
        t: SCALE,
        front_face: false,
        material: 0,
    };
    let mut rng = RandomSource::seeded(11);
    let (out, _) = metal.scatter(&ray, &rec, &mut rng);
    assert!(out.is_none());
}

#[test]
fn glass_beyond_critical_angle_always_reflects() {
    // Exiting ir = 1.5 at 45 degrees: ratio * sin = 1.5 * 0.707 > 1, total
    // internal reflection on every draw.
    let glass = Glass::new(98304, Vec3::new(SCALE, SCALE, SCALE)).unwrap();
    let ray = Ray { origin: Vec3::new(-SCALE, SCALE, 0), direction: Vec3::new(SCALE, -SCALE, 0) };
    let rec = HitRecord {
        point: Vec3::new(0, 0, 0),
        normal: Vec3::new(0, SCALE, 0),
        t: SCALE,
        front_face: false,
        material: 0,
    };
    let expected = ray.direction.normalize().reflect(&rec.normal);
    assert!((expected.x - 46341).abs() <= 2 && (expected.y - 46341).abs() <= 2 && expected.z == 0);
    let mut rng = RandomSource::seeded(13);
    for _ in 0..32 {
        let (out, att) = glass.scatter(&ray, &rec, &mut rng);
        let out = out.expect("glass always scatters");
        assert_eq!(out.direction, expected);
        assert_eq!((att.x, att.y, att.z), (SCALE, SCALE, SCALE));
    }
}

#[test]
fn diffuse_always_scatters_from_hit_point() {
    let diffuse = Diffuse::new(Vec3::new(SCALE / 2, SCALE / 4, SCALE / 8)).unwrap();
    let ray = Ray { origin: Vec3::new(0, SCALE, 0), direction: Vec3::new(0, -SCALE, 0) };
    let rec = HitRecord {
        point: Vec3::new(3 * SCALE, 0, -SCALE),
        normal: Vec3::new(0, SCALE, 0),
        t: SCALE,
        front_face: true,
        material: 0,
    };
    let mut rng = RandomSource::seeded(17);
    for _ in 0..16 {
        let (out, att) = diffuse.scatter(&ray, &rec, &mut rng);
        let out = out.expect("diffuse always scatters");
        assert_eq!((out.origin.x, out.origin.y, out.origin.z), (3 * SCALE, 0, -SCALE));
        let d = &out.direction;
        assert!(d.x != 0 || d.y != 0 || d.z != 0);
        assert_eq!((att.x, att.y, att.z), (SCALE / 2, SCALE / 4, SCALE / 8));
    }
}

#[test]
fn color_at_depth_zero_is_black() {
    let (objects, materials) = unit_sphere_scene();
    let ray = Ray { origin: Vec3::new(0, 0, 0), direction: Vec3::new(0, 0, -SCALE) };
    let mut rng = RandomSource::seeded(19);
    let c = ray.get_color(&objects, &materials, 0, &mut rng);
    assert_eq!((c.x, c.y, c.z), (0, 0, 0));
}

#[test]
fn empty_scene_returns_background_gradient() {
    let objects: Vec<Object> = vec![];
    let materials: Vec<Material> = vec![];
    let mut rng = RandomSource::seeded(23);
    let down = Ray { origin: Vec3::new(0, 0, 0), direction: Vec3::new(0, -SCALE, 0) };
    let c = down.get_color(&objects, &materials, 8, &mut rng);
    assert_eq!((c.x, c.y, c.z), (SCALE, SCALE, SCALE));
    let up = Ray { origin: Vec3::new(0, 0, 0), direction: Vec3::new(0, SCALE, 0) };
    let c = up.get_color(&objects, &materials, 8, &mut rng);
    assert_eq!((c.x, c.y, c.z), (32768, 45875, 65536));
}

#[test]
fn material_constructor_errors() {
    assert_eq!(
        Diffuse::new(Vec3::new(-1, 0, 0)).unwrap_err(),
        MaterialError::AlbedoOutOfRange
    );
    assert_eq!(
        Metal::new(Vec3::new(0, 0, 0), SCALE + 1).unwrap_err(),
        MaterialError::FuzzinessOutOfRange
    );
    assert_eq!(
        Metal::new(Vec3::new(2 * SCALE, 0, 0), 0).unwrap_err(),
        MaterialError::AlbedoOutOfRange
    );
    assert_eq!(
        Glass::new(0, Vec3::new(SCALE, SCALE, SCALE)).unwrap_err(),
        MaterialError::RefractiveIndexOutOfRange
    );
    assert_eq!(
        Glass::new(98304, Vec3::new(SCALE, SCALE, SCALE + 1)).unwrap_err(),
        MaterialError::AlbedoOutOfRange
    );
}

#[test]
fn camera_builder_validates() {
    // No focus distance: the one field without a default.
    assert_eq!(
        CameraBuilder::default().build().unwrap_err(),
        CameraBuildError::MissingFocusDistance
    );
    assert_eq!(
        CameraBuilder::default().focus_dist(SCALE).vfov(0).build().unwrap_err(),
        CameraBuildError::InvalidFieldOfView
    );
    assert_eq!(
        CameraBuilder::default()
            .focus_dist(SCALE)
            .origin(Vec3::new(SCALE, 0, 0))
            .look_at(Vec3::new(SCALE, 0, 0))
            .build()
            .unwrap_err(),
        CameraBuildError::DegenerateOrientation
    );
    assert_eq!(
        CameraBuilder::default()
            .focus_dist(SCALE)
            .vup(Vec3::new(0, 0, -SCALE))
            .build()
            .unwrap_err(),
        CameraBuildError::DegenerateOrientation
    );
    assert_eq!(
        CameraBuilder::default().focus_dist(0).build().unwrap_err(),
        CameraBuildError::OutOfRange
    );
}

#[test]
fn camera_default_geometry() {
    // Defaults with a unit focus distance: a 90-degree field of view gives a
    // viewport height of 2 * tan(45 deg), i.e. about two.
    let cam = CameraBuilder::default().focus_dist(SCALE).build().unwrap();
    assert!((cam.view_height - 2 * SCALE).abs() <= 100, "height {}", cam.view_height);
    // The default basis: w = +z, u = +x, v = +y, up to rounding.
    assert!((cam.w.z - SCALE).abs() <= 2);
    assert!((cam.u.x - SCALE).abs() <= 2);
    assert!((cam.v.y - SCALE).abs() <= 2);
    assert_eq!(cam.lens_radius, SCALE);
}

#[test]
fn canvas_builder_validates_and_zeroes() {
    let c = CanvasBuilder::default().width(4).height(2).build().unwrap();
    assert_eq!(c.width, 4);
    assert_eq!(c.height, 2);
    assert_eq!(c.aspect_ratio, 2 * SCALE);
    assert_eq!(c.buffer.len(), 4 * 2 * 3);
    assert!(c.buffer.iter().all(|&v| v == 0));
    assert_eq!(
        CanvasBuilder::default().width(1).build().unwrap_err(),
        CanvasBuildError::InvalidDimensions
    );
    assert_eq!(
        CanvasBuilder::default().width(16385).build().unwrap_err(),
        CanvasBuildError::InvalidDimensions
    );
}

fn small_renderer(samples: u32, seed: u64) -> Renderer {
    let (objects, materials) = unit_sphere_scene();
    let camera = CameraBuilder::default().focus_dist(SCALE).aperture(0).build().unwrap();
    RendererBuilder::default()
        .scene_objects(objects)
        .materials(materials)
        .camera(camera)
        .canvas(CanvasBuilder::default().width(3).height(3).build().unwrap())
        .samples(samples)
        .max_depth(4)
        .gamma(SCALE)
        .seed(seed)
        .build()
        .unwrap()
}

#[test]
fn renderer_builder_validates() {
    let (objects, materials) = unit_sphere_scene();
    let camera = CameraBuilder::default().focus_dist(SCALE).build().unwrap();
    assert_eq!(
        RendererBuilder::default()
            .camera(camera)
            .materials(materials.clone())
            .build()
            .unwrap_err(),
        RendererBuildError::MissingScene
    );
    assert_eq!(
        RendererBuilder::default()
            .scene_objects(objects.clone())
            .materials(materials.clone())
            .build()
            .unwrap_err(),
        RendererBuildError::MissingCamera
    );
    assert_eq!(
        RendererBuilder::default().samples(0).build().unwrap_err(),
        RendererBuildError::InvalidSamples
    );
    assert_eq!(
        RendererBuilder::default().max_depth(0).build().unwrap_err(),
        RendererBuildError::InvalidDepth
    );
    assert_eq!(
        RendererBuilder::default().thread_count(0).build().unwrap_err(),
        RendererBuildError::InvalidThreadCount
    );
    assert_eq!(
        RendererBuilder::default().gamma(3 * SCALE).build().unwrap_err(),
        RendererBuildError::InvalidGamma
    );
    // A sphere pointing at a material slot past the arena.
    assert_eq!(
        RendererBuilder::default()
            .camera(camera)
            .materials(vec![])
            .scene_objects(objects.clone())
            .build()
            .unwrap_err(),
        RendererBuildError::InvalidScene
    );
    // A hand-made material with an out-of-range albedo is rejected.
    assert_eq!(
        RendererBuilder::default()
            .camera(camera)
            .materials(vec![Material::Metal(Metal {
                albedo: Vec3::new(2 * SCALE, 0, 0),
                fuzziness: 0
            })])
            .scene_objects(objects)
            .build()
            .unwrap_err(),
        RendererBuildError::InvalidMaterial
    );
}

#[test]
fn renderer_builder_rejects_bad_canvas_and_camera() {
    let (objects, materials) = unit_sphere_scene();
    let camera = CameraBuilder::default().focus_dist(SCALE).build().unwrap();
    // A hand-made canvas with a one-pixel side is rebuilt and rejected.
    let bad_canvas = Canvas { width: 1, height: 540, aspect_ratio: 0, buffer: vec![] };
    assert_eq!(
        RendererBuilder::default()
            .scene_objects(objects.clone())
            .materials(materials.clone())
            .camera(camera)
            .canvas(bad_canvas)
            .build()
            .unwrap_err(),
        RendererBuildError::InvalidCanvas(CanvasBuildError::InvalidDimensions)
    );
    // A hand-made camera with a zero focus distance fails the rebuild.
    let mut bad_camera = camera;
    bad_camera.focus_dist = 0;
    assert_eq!(
        RendererBuilder::default()
            .scene_objects(objects)
            .materials(materials)
            .camera(bad_camera)
            .build()
            .unwrap_err(),
        RendererBuildError::InvalidCamera(CameraBuildError::OutOfRange)
    );
}

#[test]
fn extreme_aspect_canvas_renders() {
    // A 16384 x 2 canvas has an aspect ratio of 8192; with a narrow field of
    // view the camera still builds against it.
    let (objects, materials) = unit_sphere_scene();
    let camera = CameraBuilder::default().focus_dist(SCALE).vfov(7 * SCALE).build().unwrap();
    let canvas = CanvasBuilder::default().width(16384).height(2).build().unwrap();
    assert_eq!(canvas.aspect_ratio, 8192 * SCALE);
    let r = RendererBuilder::default()
        .scene_objects(objects)
        .materials(materials)
        .camera(camera)
        .canvas(canvas)
        .samples(1)
        .max_depth(2)
        .build()
        .unwrap();
    let mut rng = RandomSource::seeded(3);
    let c = r.render_pixel(8000, 1, &mut rng);
    assert!(0 <= c.x && c.x <= SCALE);
}

#[test]
fn render_fills_framebuffer_with_colors() {
    let mut r = small_renderer(2, 0);
    r.render();
    assert_eq!(r.canvas.buffer.len(), 3 * 3 * 3);
    assert!(r.canvas.buffer.iter().all(|&v| 0 <= v && v <= SCALE));
}

#[test]
fn render_is_deterministic_for_a_seed() {
    let mut a = small_renderer(3, 42);
    let mut b = small_renderer(3, 42);
    a.render();
    b.render();
    assert_eq!(a.canvas.buffer, b.canvas.buffer);
    let mut c = small_renderer(3, 43);
    c.render();
    assert!(c.canvas.buffer != a.canvas.buffer);
}

#[test]
fn channel_quantization_is_exact() {
    assert_eq!(channel_to_byte(0), 0);
    assert_eq!(channel_to_byte(SCALE), 255);
    assert_eq!(channel_to_byte(SCALE / 2), 127);
    assert_eq!(channel_to_byte(-7), 0);
    assert_eq!(channel_to_byte(5 * SCALE), 255);
}

#[test]
fn gamma_square_root_tonemap() {
    let g = gamma_correct(&Vec3::new(SCALE / 4, 0, SCALE), 2 * SCALE);
    assert_eq!((g.x, g.y, g.z), (SCALE / 2, 0, SCALE));
    let id = gamma_correct(&Vec3::new(12345, 0, SCALE), SCALE);
    assert_eq!((id.x, id.y, id.z), (12345, 0, SCALE));
}

#[test]
fn unit_samples_stay_inside_their_regions() {
    let mut rng = RandomSource::seeded(29);
    for _ in 0..64 {
        let v = random_in_unit_sphere(&mut rng);
        let sq = (v.x as i128) * (v.x as i128) + (v.y as i128) * (v.y as i128) + (v.z as i128)
            * (v.z as i128);
        assert!(sq < (SCALE as i128) * (SCALE as i128));
        let d = random_in_unit_disk(&mut rng);
        assert_eq!(d.z, 0);
        let sq = (d.x as i128) * (d.x as i128) + (d.y as i128) * (d.y as i128);
        assert!(sq < (SCALE as i128) * (SCALE as i128));
    }
}

#[test]
fn seeded_generators_reproduce_and_vary() {
    let mut a = RandomSource::seeded(5);
    let mut b = RandomSource::seeded(5);
    let mut c = RandomSource::seeded(6);
    let xs: Vec<i64> = (0..8).map(|_| a.next_in(-SCALE, SCALE)).collect();
    let ys: Vec<i64> = (0..8).map(|_| b.next_in(-SCALE, SCALE)).collect();
    let zs: Vec<i64> = (0..8).map(|_| c.next_in(-SCALE, SCALE)).collect();
    assert_eq!(xs, ys);
    assert!(xs != zs);
    assert!(xs.iter().all(|&x| -SCALE <= x && x < SCALE));
    // An entropy-seeded generator also draws within the requested range.
    let mut fresh = RandomSource::fresh();
    for _ in 0..8 {
        let v = fresh.next_in(10, 20);
        assert!(10 <= v && v < 20);
    }
}

/// Sum of squared deviations of the center pixel's red channel over many
/// seeded renders of the same pixel.
fn pixel_spread(samples: u32) -> i128 {
    let r = small_renderer(samples, 0);
    let runs: i64 = 48;
    let mut values: Vec<i64> = Vec::new();
    for seed in 0..runs {
        let mut rng = RandomSource::seeded(1000 + seed as u64);
        let c = r.render_pixel(1, 1, &mut rng);
        values.push(c.x);
    }
    let mean: i64 = values.iter().sum::<i64>() / runs;
    values.iter().map(|&v| {
        let d = (v - mean) as i128;
        d * d
    }).sum()
}

#[test]
fn more_samples_reduce_pixel_variance() {
    let v1 = pixel_spread(1);
    let v4 = pixel_spread(4);
    let v16 = pixel_spread(16);
    assert!(v1 > v16, "spread with 1 sample {v1}, with 16 samples {v16}");
    assert!(v4 > v16, "spread with 4 samples {v4}, with 16 samples {v16}");
    assert!(v1 > v4, "spread with 1 sample {v1}, with 4 samples {v4}");
}
