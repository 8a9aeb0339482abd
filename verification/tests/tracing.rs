//! Scene intersection, materials, and the camera's color pipeline on
//! concrete scenes.

use pathtrace::camera::Camera;
use pathtrace::hit::{HitRecord, HitWorld};
use pathtrace::interval::Interval;
use pathtrace::material::{DielectricMaterial, LambertianMaterial, Material, MetalMaterial};
use pathtrace::ray::Ray;
use pathtrace::sphere::Sphere;
use pathtrace::vec3::Vec3;

fn fx(x: f64) -> i64 {
    (x * 65536.0) as i64
}

fn gray() -> Material {
    Material::Lambertian(LambertianMaterial::new(Vec3::new(fx(0.5), fx(0.5), fx(0.5))))
}

fn window() -> Interval {
    Interval::new(65, i64::MAX)
}

#[test]
fn ray_at_walks_the_parametrization() {
    let r = Ray::new(Vec3::new(fx(1.0), 0, 0), Vec3::new(0, 0, fx(-2.0)));
    assert_eq!(r.at(fx(3.0)), Vec3::new(fx(1.0), 0, fx(-6.0)));
}

#[test]
fn sphere_hit_through_center_at_distance_minus_radius() {
    let s = Sphere::new(Vec3::new(0, 0, fx(-2.0)), fx(1.0), gray());
    let r = Ray::new(Vec3::new(0, 0, 0), Vec3::new(0, 0, fx(-1.0)));
    let hit = s.hit(&r, window()).expect("ray through center must hit");
    assert_eq!(hit.t, fx(1.0));
    assert_eq!(hit.point, Vec3::new(0, 0, fx(-1.0)));
    assert_eq!(hit.normal, Vec3::new(0, 0, fx(1.0)));
    assert!(hit.front_face);
}

#[test]
fn sphere_missed_when_closest_approach_exceeds_radius() {
    let s = Sphere::new(Vec3::new(0, 0, fx(-2.0)), fx(1.0), gray());
    let r = Ray::new(Vec3::new(0, 0, 0), Vec3::new(0, fx(1.0), 0));
    assert!(s.hit(&r, window()).is_none());
}

#[test]
fn sphere_hit_from_inside_takes_far_root() {
    let s = Sphere::new(Vec3::new(0, 0, fx(-2.0)), fx(1.0), gray());
    let r = Ray::new(Vec3::new(0, 0, fx(-2.0)), Vec3::new(0, 0, fx(-1.0)));
    let hit = s.hit(&r, window()).expect("ray from the center must exit");
    assert_eq!(hit.t, fx(1.0));
    assert!(!hit.front_face, "exit hit strikes the back face");
    assert_eq!(hit.normal, Vec3::new(0, 0, fx(1.0)));
}

#[test]
fn world_returns_nearest_hit_regardless_of_order() {
    let near = Sphere::new(Vec3::new(0, 0, fx(-2.0)), fx(1.0), gray());
    let far = Sphere::new(Vec3::new(0, 0, fx(-3.0)), fx(1.0), gray());
    let r = Ray::new(Vec3::new(0, 0, 0), Vec3::new(0, 0, fx(-1.0)));

    let mut world = HitWorld::new();
    world.push(near);
    world.push(far);
    assert_eq!(world.hit(&r, window()).expect("must hit").t, fx(1.0));

    let mut reversed = HitWorld::new();
    reversed.push(far);
    reversed.push(near);
    assert_eq!(reversed.hit(&r, window()).expect("must hit").t, fx(1.0));
}

#[test]
fn world_misses_when_every_member_misses() {
    let s = Sphere::new(Vec3::new(0, 0, fx(-2.0)), fx(1.0), gray());
    let mut world = HitWorld::new();
    world.push(s);
    let r = Ray::new(Vec3::new(0, 0, 0), Vec3::new(0, fx(1.0), 0));
    assert!(world.hit(&r, window()).is_none());
}

fn record_for(ray: &Ray, outward: Vec3) -> HitRecord {
    HitRecord::new(ray, Vec3::new(0, 0, 0), outward, fx(1.0), gray())
}

#[test]
fn hit_record_orients_normal_against_ray() {
    let down = Ray::new(Vec3::new(0, fx(1.0), 0), Vec3::new(0, fx(-1.0), 0));
    let rec = record_for(&down, Vec3::new(0, fx(1.0), 0));
    assert!(rec.front_face);
    assert_eq!(rec.normal, Vec3::new(0, fx(1.0), 0));

    let up = Ray::new(Vec3::new(0, fx(-1.0), 0), Vec3::new(0, fx(1.0), 0));
    let rec = record_for(&up, Vec3::new(0, fx(1.0), 0));
    assert!(!rec.front_face);
    assert_eq!(rec.normal, Vec3::new(0, fx(-1.0), 0));
}

#[test]
fn lambertian_always_scatters() {
    let l = LambertianMaterial::new(Vec3::new(fx(0.8), fx(0.4), fx(0.2)));
    let ray = Ray::new(Vec3::new(0, fx(1.0), 0), Vec3::new(0, fx(-1.0), 0));
    let rec = record_for(&ray, Vec3::new(0, fx(1.0), 0));
    for _ in 0..32 {
        let sc = l.scatter(&ray, &rec).expect("diffuse scatter never absorbs");
        assert_eq!(sc.attenuation, Vec3::new(fx(0.8), fx(0.4), fx(0.2)));
        assert_eq!(sc.scattered.origin, rec.point);
    }
}

#[test]
fn metal_absorbs_grazing_reflection() {
    let m = MetalMaterial::new(Vec3::new(fx(0.9), fx(0.9), fx(0.9)), 0);
    // a ray sliding along the surface: its reflection stays in the surface
    // plane, so the dot-product test rejects it
    let ray = Ray::new(Vec3::new(0, 0, 0), Vec3::new(fx(1.0), 0, 0));
    let rec = record_for(&ray, Vec3::new(0, fx(1.0), 0));
    assert!(m.scatter(&ray, &rec).is_none());
}

#[test]
fn metal_reflects_incoming_ray() {
    let m = MetalMaterial::new(Vec3::new(fx(0.9), fx(0.9), fx(0.9)), 0);
    let ray = Ray::new(Vec3::new(0, fx(1.0), 0), Vec3::new(fx(1.0), fx(-1.0), 0));
    let rec = record_for(&ray, Vec3::new(0, fx(1.0), 0));
    let sc = m.scatter(&ray, &rec).expect("head-on reflection leaves the surface");
    assert!(sc.scattered.direction.dot(rec.normal) > 0);
    assert_eq!(sc.attenuation, Vec3::new(fx(0.9), fx(0.9), fx(0.9)));
}

#[test]
fn dielectric_with_unit_index_does_not_bend() {
    let d = DielectricMaterial::new(fx(1.0));
    let ray = Ray::new(Vec3::new(0, 0, fx(1.0)), Vec3::new(0, 0, fx(-1.0)));
    let rec = record_for(&ray, Vec3::new(0, 0, fx(1.0)));
    for _ in 0..32 {
        let sc = d.scatter(&ray, &rec).expect("dielectric never absorbs");
        assert_eq!(sc.scattered.direction, Vec3::new(0, 0, fx(-1.0)));
        assert_eq!(sc.attenuation, Vec3::new(fx(1.0), fx(1.0), fx(1.0)));
    }
}

#[test]
fn dielectric_reflects_under_total_internal_reflection() {
    // leaving glass (back face) at a shallow angle: ratio * sin > 1
    let d = DielectricMaterial::new(fx(1.5));
    let dir = Vec3::new(fx(0.8), fx(-0.6), 0);
    let ray = Ray::new(Vec3::new(0, fx(1.0), 0), dir);
    // back-face hit: outward normal along the ray, record flips it
    let rec = record_for(&ray, Vec3::new(0, fx(-1.0), 0));
    assert!(!rec.front_face);
    let reflected = dir.unit().reflect(rec.normal);
    for _ in 0..16 {
        let sc = d.scatter(&ray, &rec).expect("dielectric never absorbs");
        assert_eq!(sc.scattered.direction, reflected);
    }
}

#[test]
fn metal_core_follows_the_draw() {
    let m = MetalMaterial::new(Vec3::new(fx(0.9), fx(0.9), fx(0.9)), fx(3.0));
    let ray = Ray::new(Vec3::new(0, fx(1.0), 0), Vec3::new(0, fx(-1.0), 0));
    let rec = record_for(&ray, Vec3::new(0, fx(1.0), 0));
    // a draw opposing the reflection drags the fuzzed direction into the
    // surface: absorbed
    let into = m.scatter_with(&ray, &rec, Vec3::new(0, fx(-1.0), 0));
    assert!(into.is_none());
    // a draw along the reflection keeps it out of the surface
    let out = m
        .scatter_with(&ray, &rec, Vec3::new(0, fx(1.0), 0))
        .expect("outward draw must scatter");
    assert_eq!(out.scattered.direction, Vec3::new(0, fx(4.0), 0));
}

#[test]
fn dielectric_core_follows_the_draw() {
    let d = DielectricMaterial::new(fx(1.5));
    let ray = Ray::new(Vec3::new(0, 0, fx(1.0)), Vec3::new(0, 0, fx(-1.0)));
    let rec = record_for(&ray, Vec3::new(0, 0, fx(1.0)));
    // at normal incidence the reflectance is about 0.04: a draw below it
    // reflects, a draw above it refracts straight through
    let reflected = d.scatter_with(&ray, &rec, 0);
    assert_eq!(reflected.scattered.direction, Vec3::new(0, 0, fx(1.0)));
    let refracted = d.scatter_with(&ray, &rec, fx(0.5));
    assert_eq!(refracted.scattered.direction, Vec3::new(0, 0, fx(-1.0)));
}

#[test]
fn schlick_reflectance_at_normal_incidence() {
    let d = DielectricMaterial::new(fx(1.5));
    // ((1 - 1.5) / (1 + 1.5))^2 = 0.04
    let r = d.reflectance(fx(1.0), fx(1.5));
    assert!((r - fx(0.04)).abs() <= 16, "reflectance was {r}");
}

fn test_camera(samples: u8, depth: u32) -> Camera {
    Camera::new(
        4,
        fx(1.0),
        samples,
        depth,
        fx(1.0),  // vertical field of view 90 degrees: tan(45) = 1
        Vec3::new(0, 0, 0),
        Vec3::new(0, 0, fx(-1.0)),
        Vec3::new(0, fx(1.0), 0),
        0,
        fx(1.0),
    )
}

fn test_world() -> HitWorld {
    let mut world = HitWorld::new();
    world.push(Sphere::new(Vec3::new(0, 0, fx(-1.0)), fx(0.5), gray()));
    world.push(Sphere::new(Vec3::new(0, fx(-100.5), fx(-1.0)), fx(100.0), gray()));
    world
}

#[test]
fn camera_derives_image_height_from_aspect() {
    let cam = Camera::new(
        400,
        fx(16.0 / 9.0),
        1,
        1,
        fx(1.0),
        Vec3::new(0, 0, 0),
        Vec3::new(0, 0, fx(-1.0)),
        Vec3::new(0, fx(1.0), 0),
        0,
        fx(1.0),
    );
    assert_eq!(cam.image_width, 400);
    assert_eq!(cam.image_height, 225);
}

#[test]
fn color_at_depth_zero_is_black() {
    let cam = test_camera(1, 1);
    let world = test_world();
    let ray = Ray::new(Vec3::new(0, 0, 0), Vec3::new(0, 0, fx(-1.0)));
    assert_eq!(cam.ray_color(&ray, 0, &world), Vec3::new(0, 0, 0));
}

#[test]
fn missed_rays_shade_to_the_background_gradient() {
    let cam = test_camera(1, 1);
    let world = test_world();
    // the top-left pixel of the 4x4 view looks up and left, past both spheres
    let ray = cam.get_ray_at(0, 0, Vec3::new(0, 0, 0), Vec3::new(0, 0, 0));
    let got = cam.ray_color(&ray, 1, &world);

    let (dx, dy, dz) = (
        ray.direction.x as f64 / 65536.0,
        ray.direction.y as f64 / 65536.0,
        ray.direction.z as f64 / 65536.0,
    );
    assert!(dy > 0.0, "top row must look above the horizon");
    let unit_y = dy / (dx * dx + dy * dy + dz * dz).sqrt();
    let a = 0.5 * (unit_y + 1.0);
    let expect = [
        (1.0 - a) + a * 0.5,
        (1.0 - a) + a * 0.7,
        (1.0 - a) + a * 1.0,
    ];
    let got_f = [
        got.x as f64 / 65536.0,
        got.y as f64 / 65536.0,
        got.z as f64 / 65536.0,
    ];
    for (g, e) in got_f.iter().zip(expect.iter()) {
        assert!((g - e).abs() < 1e-3, "background channel {g} vs {e}");
    }
}

#[test]
fn hit_pixels_at_depth_one_shade_black() {
    let cam = test_camera(1, 1);
    let world = test_world();
    // a pixel in the middle of the view: straight into the center sphere
    let ray = cam.get_ray_at(1, 1, Vec3::new(16384, 16384, 0), Vec3::new(0, 0, 0));
    assert!(
        world.hit(&ray, window()).is_some(),
        "center ray must strike the sphere"
    );
    assert_eq!(cam.ray_color(&ray, 1, &world), Vec3::new(0, 0, 0));
}

#[test]
fn render_emits_three_bytes_per_pixel_row_major() {
    let cam = test_camera(1, 2);
    let world = test_world();
    let row = cam.render_row(0, &world);
    assert_eq!(row.len(), 12);
    let image = cam.render(&world);
    assert_eq!(image.len(), 4 * 4 * 3);
}

#[test]
fn rendered_background_pixels_match_the_gradient() {
    let cam = test_camera(1, 1);
    let world = test_world();
    let image = cam.render(&world);
    // the two top corner pixels look up and to the side, past both spheres
    // for every jitter offset (the middle pixels can graze the sphere), so
    // they must stay inside the gradient's value band between the horizon
    // white and the zenith blue, gamma-corrected
    for px in [0usize, 3] {
        let r = image[px * 3] as f64 / 256.0;
        let g = image[px * 3 + 1] as f64 / 256.0;
        let b = image[px * 3 + 2] as f64 / 256.0;
        assert!(r < g && g < b, "gradient orders channels red < green < blue");
        assert!(b > 0.95, "blue channel is fully lit in the sky");
        assert!(r > 0.7, "red keeps the white floor of the blend");
    }
}
