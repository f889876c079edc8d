//! Vector algebra, reflection, refraction and Schlick reflectance on
//! concrete fixed-point values.

use pathtracer::fixed::{fmul, SCALE};
use pathtracer::materials::Glass;
use pathtracer::primitive_types::{IsNearZero, Reflect, Refract};
use pathtracer::vec3::Vec3;

#[test]
fn vector_arithmetic_is_exact() {
    let a = Vec3::new(SCALE, 2 * SCALE, -SCALE);
    let b = Vec3::new(SCALE / 2, -SCALE, 3 * SCALE);
    let sum = a.add(&b);
    assert_eq!((sum.x, sum.y, sum.z), (98304, 65536, 131072));
    let diff = a.sub(&b);
    assert_eq!((diff.x, diff.y, diff.z), (32768, 196608, -262144));
    // 1*0.5 + 2*(-1) + (-1)*3 = -4.5
    assert_eq!(a.dot(&b), -294912);
    let half = a.scale(SCALE / 2);
    assert_eq!((half.x, half.y, half.z), (32768, 65536, -32768));
}

#[test]
fn fixed_point_multiply_floors() {
    assert_eq!(fmul(2 * SCALE, SCALE + SCALE / 2), 3 * SCALE);
    assert_eq!(fmul(-SCALE / 2, SCALE / 2), -SCALE / 4);
    // Floor rounding: (1/65536) * (1/2) rounds down to zero.
    assert_eq!(fmul(1, SCALE / 2), 0);
    assert_eq!(fmul(-1, SCALE / 2), -1);
}

#[test]
fn cross_product_of_axes() {
    let x = Vec3::new(SCALE, 0, 0);
    let y = Vec3::new(0, SCALE, 0);
    let c = x.cross(&y);
    assert_eq!((c.x, c.y, c.z), (0, 0, SCALE));
    let back = y.cross(&x);
    assert_eq!((back.x, back.y, back.z), (0, 0, -SCALE));
}

#[test]
fn normalize_axis_and_diagonal() {
    let v = Vec3::new(0, -5 * SCALE, 0);
    let n = v.normalize();
    assert_eq!((n.x, n.y, n.z), (0, -SCALE, 0));
    // (1, 1, 0) normalizes to (sqrt(2)/2, sqrt(2)/2, 0): 46341 in fixed point.
    let d = Vec3::new(SCALE, SCALE, 0).normalize();
    assert_eq!((d.x, d.y, d.z), (46341, 46341, 0));
}

#[test]
fn near_zero_is_exact_zero() {
    assert!(Vec3::new(0, 0, 0).is_near_zero());
    assert!(!Vec3::new(1, 0, 0).is_near_zero());
    assert!(!Vec3::new(0, 0, -1).is_near_zero());
}

#[test]
fn reflect_diagonal_off_floor() {
    // (1, -1, 0) off the normal (0, 1, 0) comes back as (1, 1, 0).
    let v = Vec3::new(SCALE, -SCALE, 0);
    let n = Vec3::new(0, SCALE, 0);
    let r = v.reflect(&n);
    assert_eq!((r.x, r.y, r.z), (SCALE, SCALE, 0));
}

#[test]
fn reflect_preserves_length_approximately() {
    // An oblique unit vector against an inexactly-unit normal: the lengths
    // agree up to rounding.
    let v = Vec3::new(SCALE, 0, 0);
    let n = Vec3::new(46340, 46340, 0);
    let r = v.reflect(&n);
    let lv = v.length();
    let lr = r.length();
    assert!((lv - lr).abs() <= 16, "|v| = {lv}, |reflect(v)| = {lr}");
}

#[test]
fn refract_straight_through_interface() {
    // Normal incidence with matched indices passes straight through.
    let v = Vec3::new(0, -SCALE, 0);
    let n = Vec3::new(0, SCALE, 0);
    let r = v.refract(&n, (SCALE, SCALE));
    assert_eq!(r.x, 0);
    assert_eq!(r.z, 0);
    assert!((r.y + SCALE).abs() <= 2, "refracted y = {}", r.y);
}

#[test]
fn refract_bends_toward_normal_entering_glass() {
    // 45-degree incidence into ir = 1.5: sin of the refracted angle is
    // sin(45)/1.5 = 0.4714, so |x| of the refracted direction shrinks.
    let v = Vec3::new(46340, -46340, 0);
    let n = Vec3::new(0, SCALE, 0);
    let r = v.refract(&n, (SCALE, 98304));
    assert!(r.y < 0);
    let expected_sin = 30894; // 0.4714 in fixed point
    assert!((r.x - expected_sin).abs() <= 64, "refracted x = {}", r.x);
}

#[test]
fn schlick_reflectance_exact_values() {
    // cos = 1: the (1 - cos)^5 tail vanishes, leaving r0 exactly.
    // r0 = ((1 - 1.5) / (1 + 1.5))^2 = 0.04: 2621 in fixed point.
    assert_eq!(Glass::reflectance(SCALE, 98304), 2621);
    // cos = 0: r0 + (1 - r0) = 1 exactly.
    assert_eq!(Glass::reflectance(0, 98304), SCALE);
}

#[test]
fn schlick_reflectance_bounded_on_unit_interval() {
    for ir in [256i64, 8192, 32768, 65536, 98304, 160000, 16777216, 281474976710656] {
        let mut cos = 0i64;
        while cos <= SCALE {
            let r = Glass::reflectance(cos, ir);
            assert!(0 <= r && r <= SCALE, "reflectance({cos}, {ir}) = {r}");
            cos += 4096;
        }
    }
}
