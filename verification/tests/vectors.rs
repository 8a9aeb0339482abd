//! Vector, interval and color behavior on concrete fixed-point values
//! (65536 units to one).

use pathtrace::color::Color;
use pathtrace::interval::Interval;
use pathtrace::vec3::Vec3;

fn fx(x: f64) -> i64 {
    (x * 65536.0) as i64
}

#[test]
fn add() {
    let a = Vec3::new(fx(1.0), fx(2.0), fx(3.0));
    assert_eq!(a.plus(a), Vec3::new(fx(2.0), fx(4.0), fx(6.0)));
}

#[test]
fn mul() {
    let a = Vec3::new(fx(1.0), fx(2.0), fx(3.0));
    assert_eq!(a.scale(fx(2.0)), Vec3::new(fx(2.0), fx(4.0), fx(6.0)));
    assert_eq!(a.scale(fx(2.0)), Vec3::new(fx(2.0), fx(4.0), fx(6.0)));
}

#[test]
fn addition_commutes_and_associates() {
    let a = Vec3::new(fx(1.5), fx(-2.0), fx(0.25));
    let b = Vec3::new(fx(-7.0), fx(3.5), fx(11.0));
    let c = Vec3::new(fx(0.125), fx(9.0), fx(-4.75));
    assert_eq!(a.plus(b), b.plus(a));
    assert_eq!(a.plus(b).plus(c), a.plus(b.plus(c)));
}

#[test]
fn subtracting_self_gives_zero() {
    let a = Vec3::new(fx(12.75), fx(-3.5), fx(0.0625));
    assert_eq!(a.minus(a), Vec3::new(0, 0, 0));
}

#[test]
fn dot_with_self_is_len_squared() {
    let a = Vec3::new(fx(1.0), fx(2.0), fx(-3.0));
    assert_eq!(a.dot(a), a.len_squared());
    assert_eq!(a.len_squared(), fx(14.0));
}

#[test]
fn unit_vector_has_unit_length() {
    let v = Vec3::new(fx(3.0), fx(4.0), 0);
    assert_eq!(v.len(), fx(5.0));
    let u = v.unit();
    let ls = u.len_squared();
    assert!((ls - fx(1.0)).abs() <= 8, "unit length squared was {ls}");
}

#[test]
fn reflect_flips_normal_component_and_keeps_length() {
    let v = Vec3::new(fx(1.0), fx(-1.0), 0);
    let n = Vec3::new(0, fx(1.0), 0);
    let r = v.reflect(n);
    assert_eq!(r, Vec3::new(fx(1.0), fx(1.0), 0));
    assert_eq!(r.dot(n), -v.dot(n));
    assert_eq!(r.len_squared(), v.len_squared());
}

#[test]
fn cross_of_axes() {
    let x = Vec3::new(fx(1.0), 0, 0);
    let y = Vec3::new(0, fx(1.0), 0);
    assert_eq!(x.cross(y), Vec3::new(0, 0, fx(1.0)));
    assert_eq!(y.cross(x), Vec3::new(0, 0, fx(-1.0)));
}

#[test]
fn near_zero_detects_tiny_vectors() {
    assert!(Vec3::new(0, 0, 0).is_near_zero());
    assert!(Vec3::new(255, -255, 1).is_near_zero());
    assert!(!Vec3::new(256, 0, 0).is_near_zero());
    assert!(!Vec3::new(0, 0, fx(1.0)).is_near_zero());
}

#[test]
fn refract_with_matching_media_does_not_bend() {
    let v = Vec3::new(0, 0, fx(-1.0));
    let n = Vec3::new(0, 0, fx(1.0));
    assert_eq!(v.refract(n, fx(1.0)), v);
}

#[test]
fn random_range_is_within_bounds() {
    let v = Vec3::random_range(5, 6);
    assert_eq!(v, Vec3::new(5, 5, 5));
    let w = Vec3::random_range(fx(-1.0), fx(1.0));
    assert!(w.x >= fx(-1.0) && w.x < fx(1.0));
    assert!(w.y >= fx(-1.0) && w.y < fx(1.0));
    assert!(w.z >= fx(-1.0) && w.z < fx(1.0));
}

#[test]
fn random_components_in_unit_range() {
    let v = Vec3::random();
    assert!(v.x >= 0 && v.x < fx(1.0));
    assert!(v.y >= 0 && v.y < fx(1.0));
    assert!(v.z >= 0 && v.z < fx(1.0));
}

#[test]
fn random_unit_has_roughly_unit_length() {
    for _ in 0..32 {
        let u = Vec3::random_unit();
        let ls = u.len_squared();
        assert!((ls - fx(1.0)).abs() <= 32, "length squared was {ls}");
    }
}

#[test]
fn random_unit_on_hemisphere_faces_normal() {
    let n = Vec3::new(0, fx(1.0), 0);
    for _ in 0..32 {
        let u = Vec3::random_unit_on_hemisphere(n);
        assert!(u.dot(n) >= 0);
    }
}

#[test]
fn interval_contains_and_surrounds() {
    let iv = Interval::new(fx(1.0), fx(2.0));
    assert_eq!(iv.size(), fx(1.0));
    assert!(iv.contains(fx(1.0)));
    assert!(iv.contains(fx(2.0)));
    assert!(!iv.surrounds(fx(1.0)));
    assert!(!iv.surrounds(fx(2.0)));
    assert!(iv.surrounds(fx(1.5)));
    assert!(!iv.contains(fx(0.5)));
}

#[test]
fn interval_with_max_shrinks_window() {
    let iv = Interval::new(fx(0.5), fx(10.0));
    let shrunk = iv.with_max(fx(2.0));
    assert_eq!(shrunk.min, fx(0.5));
    assert_eq!(shrunk.max, fx(2.0));
}

#[test]
fn interval_clamp_saturates() {
    let iv = Interval::new(0, fx(0.999));
    assert_eq!(iv.clamp(fx(-1.0)), 0);
    assert_eq!(iv.clamp(fx(2.0)), fx(0.999));
    assert_eq!(iv.clamp(fx(0.5)), fx(0.5));
}

#[test]
fn interval_empty_and_universe() {
    let e = Interval::empty();
    assert!(!e.contains(0));
    let u = Interval::universe();
    assert!(u.contains(0));
    assert!(u.contains(i64::MIN));
}

#[test]
fn color_round_trip_black_and_white() {
    let black = Color::new(0i64, 0, 0).to_int();
    assert_eq!((black.r, black.g, black.b), (0u8, 0, 0));
    let white = Color::new(fx(1.0), fx(1.0), fx(1.0)).to_int();
    assert_eq!((white.r, white.g, white.b), (255u8, 255, 255));
}

#[test]
fn color_gamma_is_square_root() {
    // linear 0.25 -> gamma 0.5 -> display 128
    let c = Color::new(fx(0.25), fx(0.25), fx(0.25)).to_int();
    assert_eq!((c.r, c.g, c.b), (128u8, 128, 128));
    // negative intensities clamp to black
    let d = Color::new(fx(-1.0), 0, 0).to_int();
    assert_eq!(d.r, 0u8);
}

#[test]
fn color_from_vector_maps_components() {
    let c = Color::from(Vec3::new(1, 2, 3));
    assert_eq!((c.r, c.g, c.b), (1i64, 2, 3));
}
