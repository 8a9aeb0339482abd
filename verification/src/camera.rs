//! The camera: viewport geometry derived from declarative parameters, per-
//! pixel jittered ray generation with optional defocus blur, and the
//! recursive, depth-bounded color accumulation that drives the render.
//!
//! Angles reach the camera as precomputed tangents (`tan_half_vfov`,
//! `tan_half_defocus`), since trigonometry lives outside the fixed-point
//! model; everything after that point is verified arithmetic.

use vstd::prelude::*;
use crate::color::{Color, sto_byte};
use crate::fixed::{SCALE, fadd, fsub, fmul, fdiv, tdiv, fx_add, fx_sub, fx_mul, fx_div,
    lemma_tdiv_bounds};
use crate::hit::{HitRecord, HitWorld, world_hit, world_wf};
use crate::material::{Scatter, scatter_possible};
use crate::sphere::Sphere;
use crate::interval::Interval;
use crate::ray::Ray;
use crate::rng::rand_fixed_range;
use crate::vec3::{Vec3, vadd, vsub, vneg, vscale, vdiv_by, vhadamard, scross, sunit, slen_sq,
    lemma_slen_sq_nonneg};

verus! {

/// Lower ray-parameter bound (about 0.001) that suppresses self-intersection
/// of a scattered ray with its own origin surface.
pub const T_MIN: i64 = 65;

/// Half a unit, the sub-pixel jitter radius and the pixel-center offset.
pub const HALF: i64 = 32768;

#[derive(Clone, Copy, Debug, PartialEq, Eq, Structural)]
pub struct Camera {
    pub image_width: u32,
    pub image_height: u32,
    pub pixel_samples_scale: i64,
    pub samples_per_pixel: u8,
    pub max_depth: u32,
    pub center: Vec3,
    pub pixel00_loc: Vec3,
    pub pixel_delta_u: Vec3,
    pub pixel_delta_v: Vec3,
    pub u: Vec3,
    pub v: Vec3,
    pub w: Vec3,
    pub defocus_disk_u: Vec3,
    pub defocus_disk_v: Vec3,
    pub tan_half_defocus: i64,
}

/// Image height derived from width and aspect ratio: at least one pixel, and
/// saturated into the `u32` range as a float-to-integer cast would be.
pub open spec fn scamera_height(image_width: u32, aspect_ratio: i64) -> u32 {
    let h = tdiv(fdiv(sat_px(image_width), aspect_ratio) as int, SCALE as int);
    if h < 1 {
        1u32
    } else if h > 0xFFFFFFFF {
        0xFFFFFFFFu32
    } else {
        h as u32
    }
}

/// The camera every construction parameter set derives: viewport
/// geometry, orthonormal basis and defocus-disk basis, in fixed point.
#[verifier::opaque]
pub open spec fn camera_from(
    image_width: u32,
    aspect_ratio: i64,
    samples_per_pixel: u8,
    max_depth: u32,
    tan_half_vfov: i64,
    lookfrom: Vec3,
    lookat: Vec3,
    vup: Vec3,
    tan_half_defocus: i64,
    focus_dist: i64,
) -> Camera {
    let image_height = scamera_height(image_width, aspect_ratio);
    let viewport_height = fmul(fadd(tan_half_vfov, tan_half_vfov), focus_dist);
    let viewport_width = fmul(
        viewport_height,
        fdiv(sat_px(image_width), sat_px(image_height)),
    );
    let w = sunit(vsub(lookfrom, lookat));
    let u = sunit(scross(vup, w));
    let v = scross(w, u);
    let viewport_u = vscale(u, viewport_width);
    let viewport_v = vscale(vneg(v), viewport_height);
    let pixel_delta_u = vdiv_by(viewport_u, sat_px(image_width));
    let pixel_delta_v = vdiv_by(viewport_v, sat_px(image_height));
    let viewport_upper_left = vsub(
        vsub(vsub(lookfrom, vscale(w, focus_dist)), vdiv_by(viewport_u, 131072)),
        vdiv_by(viewport_v, 131072),
    );
    let pixel00_loc = vadd(viewport_upper_left, vscale(vadd(pixel_delta_u, pixel_delta_v), HALF));
    let defocus_radius = fmul(focus_dist, tan_half_defocus);
    Camera {
        image_width,
        image_height,
        pixel_samples_scale: fdiv(SCALE, ((samples_per_pixel as i64) * (SCALE as int)) as i64),
        samples_per_pixel,
        max_depth,
        center: lookfrom,
        pixel00_loc,
        pixel_delta_u,
        pixel_delta_v,
        u,
        v,
        w,
        defocus_disk_u: vscale(u, defocus_radius),
        defocus_disk_v: vscale(v, defocus_radius),
        tan_half_defocus,
    }
}

/// A sub-pixel jitter offset: both coordinates in `[-1/2, 1/2)`.
pub open spec fn in_square(off: Vec3) -> bool {
    -HALF <= off.x < HALF && -HALF <= off.y < HALF && off.z == 0
}

/// A defocus-disk sample: inside the unit disk in the xy plane.
pub open spec fn in_disk(p: Vec3) -> bool {
    slen_sq(p) < SCALE && -SCALE <= p.x <= SCALE && -SCALE <= p.y <= SCALE && p.z == 0
}

/// The point of the camera's defocus disk that a unit-disk sample maps to.
pub open spec fn sdefocus_point(cam: Camera, p: Vec3) -> Vec3 {
    vadd(
        cam.center,
        vadd(vscale(cam.defocus_disk_u, p.x), vscale(cam.defocus_disk_v, p.y)),
    )
}

/// The ray cast for pixel `(i, j)`, given a jitter offset and a unit-disk
/// sample: from the camera center (or the defocus disk, when defocus is on)
/// through the jittered pixel position.
pub open spec fn camera_ray(cam: Camera, i: u32, j: u32, off: Vec3, p: Vec3) -> Ray {
    let ti = fadd(sat_px(i), off.x);
    let tj = fadd(sat_px(j), off.y);
    let pixel_sample = vadd(
        vadd(cam.pixel00_loc, vscale(cam.pixel_delta_u, ti)),
        vscale(cam.pixel_delta_v, tj),
    );
    let origin = if cam.tan_half_defocus <= 0 {
        cam.center
    } else {
        sdefocus_point(cam, p)
    };
    Ray { origin, direction: vsub(pixel_sample, origin) }
}

/// A pixel index as a fixed-point scalar.
pub open spec fn sat_px(i: u32) -> i64 {
    ((i as i64) * (SCALE as int)) as i64
}

/// The background gradient a missed ray resolves to: white blended toward
/// sky blue by the height of the unit direction.
pub open spec fn sbackground(ray: Ray) -> Vec3 {
    let ud = sunit(ray.direction);
    let a = fmul(HALF, fadd(ud.y, SCALE));
    vadd(
        vscale(Vec3 { x: SCALE, y: SCALE, z: SCALE }, fsub(SCALE, a)),
        vscale(Vec3 { x: HALF, y: 45875, z: SCALE }, a),
    )
}

/// The ray-parameter window a trace searches: `(T_MIN, +infinity)`.
pub open spec fn trace_window() -> Interval {
    Interval { min: T_MIN, max: i64::MAX }
}

/// `c` is a color the recursive trace can produce for `ray` at `depth`, for
/// some outcome of the random scatter draws: black at depth zero or for a
/// degenerate ray; the background gradient on a miss; otherwise a possible
/// scatter's attenuation times a possible color of its scattered ray one
/// level deeper, or black on a possible absorption.
pub open spec fn possible_color(ray: Ray, depth: u32, world: Seq<Sphere>, c: Vec3) -> bool
    decreases depth, 1int,
{
    if depth == 0 {
        c == (Vec3 { x: 0, y: 0, z: 0 })
    } else if slen_sq(ray.direction) == 0 {
        c == (Vec3 { x: 0, y: 0, z: 0 })
    } else {
        match world_hit(world, ray, trace_window()) {
            None => c == sbackground(ray),
            Some(h) => possible_bounce(ray, depth, world, h, c),
        }
    }
}

/// A possible outcome at a hit: some possible scatter's attenuation times a
/// possible color of the scattered ray one level deeper, or black when an
/// absorption is possible.
pub open spec fn possible_bounce(
    ray: Ray,
    depth: u32,
    world: Seq<Sphere>,
    h: HitRecord,
    c: Vec3,
) -> bool
    decreases depth, 0int,
{
    ||| (depth > 0 && exists|sc: Scatter, rec: Vec3|
        scatter_possible(h.material, ray, h, Some(sc)) && possible_color(
            sc.scattered,
            (depth - 1) as u32,
            world,
            rec,
        ) && c == #[trigger] vhadamard(sc.attenuation, rec))
    ||| (scatter_possible(h.material, ray, h, None) && c == (Vec3 { x: 0, y: 0, z: 0 }))
}

/// `acc` is a possible sum of `n` traced sample colors for pixel `(i, j)`:
/// zero for no samples, else a possible sum of one fewer plus a possible
/// trace of some jittered, defocus-sampled ray for the pixel.
#[verifier::opaque]
pub open spec fn possible_sample_sum(
    cam: Camera,
    i: u32,
    j: u32,
    world: Seq<Sphere>,
    n: int,
    acc: Vec3,
) -> bool
    decreases n,
{
    if n <= 0 {
        acc == (Vec3 { x: 0, y: 0, z: 0 })
    } else {
        exists|prev: Vec3, off: Vec3, p: Vec3, c: Vec3|
            #![trigger camera_ray(cam, i, j, off, p), vadd(prev, c)]
            possible_sample_sum(cam, i, j, world, n - 1, prev) && in_square(off) && in_disk(p)
                && possible_color(camera_ray(cam, i, j, off, p), cam.max_depth, world, c) && acc
                == vadd(prev, c)
    }
}

/// An empty sample sum is black.
proof fn lemma_sample_sum_zero(cam: Camera, i: u32, j: u32, world: Seq<Sphere>, acc: Vec3)
    requires
        acc == (Vec3 { x: 0, y: 0, z: 0 }),
    ensures
        possible_sample_sum(cam, i, j, world, 0, acc),
{
    reveal_with_fuel(possible_sample_sum, 1);
}

/// One more possible sample extends a possible sample sum.
proof fn lemma_sample_sum_step(
    cam: Camera,
    i: u32,
    j: u32,
    world: Seq<Sphere>,
    n: int,
    prev: Vec3,
    off: Vec3,
    p: Vec3,
    c: Vec3,
    acc: Vec3,
)
    requires
        n >= 1,
        possible_sample_sum(cam, i, j, world, n - 1, prev),
        in_square(off),
        in_disk(p),
        possible_color(camera_ray(cam, i, j, off, p), cam.max_depth, world, c),
        acc == vadd(prev, c),
    ensures
        possible_sample_sum(cam, i, j, world, n, acc),
{
    reveal_with_fuel(possible_sample_sum, 1);
    assert(exists|prev2: Vec3, off2: Vec3, p2: Vec3, c2: Vec3|
        #![trigger camera_ray(cam, i, j, off2, p2), vadd(prev2, c2)]
        possible_sample_sum(cam, i, j, world, n - 1, prev2) && in_square(off2) && in_disk(p2)
            && possible_color(camera_ray(cam, i, j, off2, p2), cam.max_depth, world, c2) && acc
            == vadd(prev2, c2));
}

/// The three display bytes of one pixel: `to_int` of the
/// `pixel_samples_scale`-scaled sum of `samples_per_pixel` possible sample
/// colors for that pixel.
pub open spec fn possible_pixel(
    cam: Camera,
    i: u32,
    j: u32,
    world: Seq<Sphere>,
    r: u8,
    g: u8,
    b: u8,
) -> bool {
    exists|acc: Vec3|
        #![trigger vscale(acc, cam.pixel_samples_scale)]
        possible_sample_sum(cam, i, j, world, cam.samples_per_pixel as int, acc) && ({
            let scaled = vscale(acc, cam.pixel_samples_scale);
            r == sto_byte(scaled.x) && g == sto_byte(scaled.y) && b == sto_byte(scaled.z)
        })
}

/// Pixel `(i, j)` of a rendered byte stream holds a possible pixel value at
/// its row-major position (top row first, three bytes per pixel).
pub open spec fn pixel_ok(cam: Camera, world: Seq<Sphere>, bytes: Seq<u8>, i: int, j: int) -> bool {
    possible_pixel(
        cam,
        i as u32,
        j as u32,
        world,
        bytes[3 * (j * (cam.image_width as int) + i)],
        bytes[3 * (j * (cam.image_width as int) + i) + 1],
        bytes[3 * (j * (cam.image_width as int) + i) + 2],
    )
}

/// A scattered continuation makes a possible color: if the world hit at
/// `ray` can scatter to `sc`, and `rec` is a possible color of the scattered
/// ray one level deeper, then the attenuated `rec` is a possible color of
/// `ray`.
proof fn lemma_possible_color_scattered(
    ray: Ray,
    depth: u32,
    world: Seq<Sphere>,
    h: HitRecord,
    sc: Scatter,
    rec: Vec3,
    c: Vec3,
)
    requires
        depth > 0,
        slen_sq(ray.direction) != 0,
        world_hit(world, ray, trace_window()) == Some(h),
        scatter_possible(h.material, ray, h, Some(sc)),
        possible_color(sc.scattered, (depth - 1) as u32, world, rec),
        c == vhadamard(sc.attenuation, rec),
    ensures
        possible_color(ray, depth, world, c),
{
    assert(exists|sc2: Scatter, rec2: Vec3|
        scatter_possible(h.material, ray, h, Some(sc2)) && possible_color(
            sc2.scattered,
            (depth - 1) as u32,
            world,
            rec2,
        ) && c == #[trigger] vhadamard(sc2.attenuation, rec2));
    assert(possible_bounce(ray, depth, world, h, c));
}

impl Camera {
    /// Derive the render geometry from declarative parameters.  The field of
    /// view and defocus angle arrive as tangents of their half-angles; a
    /// non-positive `tan_half_defocus` disables depth of field.  Degenerate
    /// configurations (zero-length view direction, an up hint parallel to
    /// it) are ruled out by precondition.
    pub fn new(
        image_width: u32,
        aspect_ratio: i64,
        samples_per_pixel: u8,
        max_depth: u32,
        tan_half_vfov: i64,
        lookfrom: Vec3,
        lookat: Vec3,
        vup: Vec3,
        tan_half_defocus: i64,
        focus_dist: i64,
    ) -> (r: Camera)
        requires
            image_width >= 1,
            aspect_ratio > 0,
            samples_per_pixel >= 1,
            slen_sq(vsub(lookfrom, lookat)) > 0,
            slen_sq(scross(vup, sunit(vsub(lookfrom, lookat)))) > 0,
        ensures
            r == camera_from(
                image_width,
                aspect_ratio,
                samples_per_pixel,
                max_depth,
                tan_half_vfov,
                lookfrom,
                lookat,
                vup,
                tan_half_defocus,
                focus_dist,
            ),
    {
        proof {
            reveal(camera_from);
        }
        let width_fx = image_width as i64 * SCALE;
        let h_fx = fx_div(width_fx, aspect_ratio);
        proof {
            lemma_tdiv_bounds(width_fx * SCALE, aspect_ratio as int);
        }
        let h_px = h_fx / SCALE;
        let image_height: u32 = if h_px < 1 {
            1
        } else if h_px > 0xFFFFFFFF {
            0xFFFFFFFF
        } else {
            h_px as u32
        };
        let height_fx = image_height as i64 * SCALE;
        let pixel_samples_scale = fx_div(SCALE, samples_per_pixel as i64 * SCALE);
        let viewport_height = fx_mul(fx_add(tan_half_vfov, tan_half_vfov), focus_dist);
        let viewport_width = fx_mul(viewport_height, fx_div(width_fx, height_fx));
        let center = lookfrom;

        let w = lookfrom.minus(lookat).unit();
        let u = vup.cross(w).unit();
        let v = w.cross(u);

        let viewport_u = u.scale(viewport_width);
        let viewport_v = v.neg().scale(viewport_height);

        let pixel_delta_u = viewport_u.div_by(width_fx);
        let pixel_delta_v = viewport_v.div_by(height_fx);

        let viewport_upper_left = center.minus(w.scale(focus_dist)).minus(
            viewport_u.div_by(2 * SCALE),
        ).minus(viewport_v.div_by(2 * SCALE));
        let pixel00_loc = viewport_upper_left.plus(pixel_delta_u.plus(pixel_delta_v).scale(HALF));

        let defocus_radius = fx_mul(focus_dist, tan_half_defocus);
        let defocus_disk_u = u.scale(defocus_radius);
        let defocus_disk_v = v.scale(defocus_radius);

        Camera {
            image_width,
            image_height,
            pixel_samples_scale,
            samples_per_pixel,
            max_depth,
            center,
            pixel00_loc,
            pixel_delta_u,
            pixel_delta_v,
            u,
            v,
            w,
            defocus_disk_u,
            defocus_disk_v,
            tan_half_defocus,
        }
    }

    /// A uniform jitter offset within the pixel square.
    pub fn sample_square() -> (r: Vec3)
        ensures
            in_square(r),
    {
        Vec3 { x: rand_fixed_range(-32768, 32768), y: rand_fixed_range(-32768, 32768), z: 0 }
    }

    /// Rejection-sampled point inside the unit disk; after a bounded number
    /// of rejected draws (vanishingly unlikely) the disk center stands in.
    pub fn random_in_unit_disk() -> (r: Vec3)
        ensures
            in_disk(r),
    {
        let mut tries: u32 = 0;
        while tries < 1000
            invariant
                true,
            decreases 1000 - tries,
        {
            let p = Vec3 {
                x: rand_fixed_range(-65536, 65536),
                y: rand_fixed_range(-65536, 65536),
                z: 0,
            };
            if p.len_squared() < SCALE {
                return p;
            }
            tries = tries + 1;
        }
        let center = Vec3::new(0, 0, 0);
        proof {
            lemma_slen_sq_nonneg(center);
        }
        center
    }

    /// A point on the camera's defocus disk.
    pub fn defocus_disk_sample(&self) -> (r: Vec3)
        ensures
            exists|p: Vec3| in_disk(p) && r == #[trigger] sdefocus_point(*self, p),
    {
        let p = Camera::random_in_unit_disk();
        let r = self.center.plus(
            self.defocus_disk_u.scale(p.x).plus(self.defocus_disk_v.scale(p.y)),
        );
        proof {
            assert(in_disk(p) && r == sdefocus_point(*self, p));
        }
        r
    }

    /// The ray for pixel `(i, j)` under a given jitter offset and unit-disk
    /// sample: the deterministic core of ray generation.
    pub fn get_ray_at(&self, i: u32, j: u32, off: Vec3, p: Vec3) -> (r: Ray)
        requires
            in_square(off),
            in_disk(p),
        ensures
            r == camera_ray(*self, i, j, off, p),
    {
        let ti = fx_add(i as i64 * SCALE, off.x);
        let tj = fx_add(j as i64 * SCALE, off.y);
        let pixel_sample = self.pixel00_loc.plus(self.pixel_delta_u.scale(ti)).plus(
            self.pixel_delta_v.scale(tj),
        );
        let ray_origin = if self.tan_half_defocus <= 0 {
            self.center
        } else {
            self.center.plus(self.defocus_disk_u.scale(p.x).plus(self.defocus_disk_v.scale(p.y)))
        };
        let ray_direction = pixel_sample.minus(ray_origin);
        Ray::new(ray_origin, ray_direction)
    }

    /// A jittered, defocus-aware ray for pixel `(i, j)`.
    pub fn get_ray(&self, i: u32, j: u32) -> (r: Ray)
        ensures
            exists|off: Vec3, p: Vec3|
                in_square(off) && in_disk(p) && r == #[trigger] camera_ray(*self, i, j, off, p),
    {
        let off = Camera::sample_square();
        let p = Camera::random_in_unit_disk();
        let r = self.get_ray_at(i, j, off, p);
        proof {
            assert(in_square(off) && in_disk(p) && r == camera_ray(*self, i, j, off, p));
        }
        r
    }

    /// Recursive color of a ray: black once the depth budget is exhausted or
    /// the ray is degenerate; the background gradient on a miss; otherwise
    /// the scattered ray's color attenuated by the surface, with absorption
    /// contributing black.
    #[verifier::rlimit(60)]
    pub fn ray_color(&self, ray: &Ray, depth: u32, world: &HitWorld) -> (r: Vec3)
        requires
            world_wf(world.list@),
        ensures
            depth == 0 ==> r == (Vec3 { x: 0, y: 0, z: 0 }),
            depth > 0 && slen_sq(ray.direction) == 0 ==> r == (Vec3 { x: 0, y: 0, z: 0 }),
            depth > 0 && slen_sq(ray.direction) > 0 && world_hit(
                world.list@,
                *ray,
                trace_window(),
            ) is None ==> r == sbackground(*ray),
            depth == 1 && slen_sq(ray.direction) > 0 && world_hit(
                world.list@,
                *ray,
                trace_window(),
            ) is Some ==> r == (Vec3 { x: 0, y: 0, z: 0 }),
            possible_color(*ray, depth, world.list@, r),
        decreases depth,
    {
        proof {
            reveal(possible_color);
        }
        if depth == 0 {
            return Vec3::new(0, 0, 0);
        }
        let ls = ray.direction.len_squared();
        if ls == 0 {
            return Vec3::new(0, 0, 0);
        }
        match world.hit(ray, Interval::new(T_MIN, i64::MAX)) {
            Some(hit) => {
                match hit.material.scatter(ray, &hit) {
                    Some(sc) => {
                        let rec = self.ray_color(&sc.scattered, depth - 1, world);
                        let out = sc.attenuation.hadamard(rec);
                        proof {
                            lemma_possible_color_scattered(
                                *ray,
                                depth,
                                world.list@,
                                hit,
                                sc,
                                rec,
                                out,
                            );
                            if depth == 1 {
                                crate::vec3::lemma_vhadamard_zero(sc.attenuation);
                            }
                        }
                        out
                    },
                    None => Vec3::new(0, 0, 0),
                }
            },
            None => {
                let unit_direction = ray.direction.unit();
                let a = fx_mul(HALF, fx_add(unit_direction.y, SCALE));
                Vec3::splat(SCALE).scale(fx_sub(SCALE, a)).plus(
                    Vec3::new(HALF, 45875, SCALE).scale(a),
                )
            },
        }
    }

    /// One scan line of the image: three display bytes per pixel, left to
    /// right; each pixel is `to_int` of the scaled sum of
    /// `samples_per_pixel` sample colors, each a possible trace of a
    /// jittered ray for that pixel.
    pub fn render_row(&self, j: u32, world: &HitWorld) -> (row: Vec<u8>)
        requires
            world_wf(world.list@),
        ensures
            row@.len() == 3 * self.image_width,
            forall|i0: int|
                0 <= i0 < self.image_width ==> #[trigger] possible_pixel(
                    *self,
                    i0 as u32,
                    j,
                    world.list@,
                    row@[3 * i0],
                    row@[3 * i0 + 1],
                    row@[3 * i0 + 2],
                ),
    {
        let mut row: Vec<u8> = Vec::new();
        let mut i: u32 = 0;
        while i < self.image_width
            invariant
                world_wf(world.list@),
                i <= self.image_width,
                row@.len() == 3 * i,
                forall|i0: int|
                    0 <= i0 < i ==> #[trigger] possible_pixel(
                        *self,
                        i0 as u32,
                        j,
                        world.list@,
                        row@[3 * i0],
                        row@[3 * i0 + 1],
                        row@[3 * i0 + 2],
                    ),
            decreases self.image_width - i,
        {
            let mut pixel_color = Vec3::splat(0);
            let mut s: u8 = 0;
            proof {
                lemma_sample_sum_zero(*self, i, j, world.list@, pixel_color);
            }
            while s < self.samples_per_pixel
                invariant
                    world_wf(world.list@),
                    s <= self.samples_per_pixel,
                    possible_sample_sum(*self, i, j, world.list@, s as int, pixel_color),
                decreases self.samples_per_pixel - s,
            {
                let ray = self.get_ray(i, j);
                let c = self.ray_color(&ray, self.max_depth, world);
                let ghost prev = pixel_color;
                pixel_color = pixel_color.plus(c);
                proof {
                    let (off, p) = choose|off: Vec3, p: Vec3|
                        in_square(off) && in_disk(p) && ray == #[trigger] camera_ray(
                            *self,
                            i,
                            j,
                            off,
                            p,
                        );
                    assert(possible_color(
                        camera_ray(*self, i, j, off, p),
                        self.max_depth,
                        world.list@,
                        c,
                    ));
                    lemma_sample_sum_step(
                        *self,
                        i,
                        j,
                        world.list@,
                        s as int + 1,
                        prev,
                        off,
                        p,
                        c,
                        pixel_color,
                    );
                }
                s = s + 1;
            }
            let scaled = pixel_color.scale(self.pixel_samples_scale);
            let color = Color::from(scaled);
            let ci = color.to_int();
            let ghost oldrow = row@;
            row.push(ci.r);
            row.push(ci.g);
            row.push(ci.b);
            proof {
                assert(exists|acc: Vec3|
                    #![trigger vscale(acc, self.pixel_samples_scale)]
                    possible_sample_sum(
                        *self,
                        i,
                        j,
                        world.list@,
                        self.samples_per_pixel as int,
                        acc,
                    ) && ci.r == sto_byte(vscale(acc, self.pixel_samples_scale).x) && ci.g
                        == sto_byte(vscale(acc, self.pixel_samples_scale).y) && ci.b == sto_byte(
                        vscale(acc, self.pixel_samples_scale).z,
                    ));
                assert(possible_pixel(*self, i, j, world.list@, ci.r, ci.g, ci.b));
                assert forall|i0: int| 0 <= i0 < i + 1 implies #[trigger] possible_pixel(
                    *self,
                    i0 as u32,
                    j,
                    world.list@,
                    row@[3 * i0],
                    row@[3 * i0 + 1],
                    row@[3 * i0 + 2],
                ) by {
                    if i0 < i {
                        assert(row@[3 * i0] == oldrow[3 * i0]);
                        assert(row@[3 * i0 + 1] == oldrow[3 * i0 + 1]);
                        assert(row@[3 * i0 + 2] == oldrow[3 * i0 + 2]);
                    } else {
                        assert(row@[3 * i0] == ci.r);
                        assert(row@[3 * i0 + 1] == ci.g);
                        assert(row@[3 * i0 + 2] == ci.b);
                    }
                }
            }
            i = i + 1;
        }
        row
    }

    /// The whole image as display bytes, row-major from the top row, three
    /// bytes per pixel: every pixel holds a possible averaged-and-quantized
    /// trace for its position.
    pub fn render(&self, world: &HitWorld) -> (out: Vec<u8>)
        requires
            world_wf(world.list@),
        ensures
            out@.len() == 3 * self.image_width * self.image_height,
            forall|i0: int, j0: int|
                0 <= i0 < self.image_width && 0 <= j0 < self.image_height
                    ==> #[trigger] pixel_ok(*self, world.list@, out@, i0, j0),
    {
        let mut out: Vec<u8> = Vec::new();
        let mut j: u32 = 0;
        while j < self.image_height
            invariant
                world_wf(world.list@),
                j <= self.image_height,
                out@.len() == 3 * self.image_width * j,
                forall|i0: int, j0: int|
                    0 <= i0 < self.image_width && 0 <= j0 < j ==> #[trigger] pixel_ok(
                        *self,
                        world.list@,
                        out@,
                        i0,
                        j0,
                    ),
            decreases self.image_height - j,
        {
            let ghost oldout = out@;
            let mut row = self.render_row(j, world);
            let ghost rowseq = row@;
            out.append(&mut row);
            proof {
                let w = self.image_width as int;
                let jj = j as int;
                assert(3 * self.image_width * (j + 1) == 3 * self.image_width * j + 3
                    * self.image_width) by (nonlinear_arith);
                assert forall|i0: int, j0: int|
                    0 <= i0 < self.image_width && 0 <= j0 < j + 1 implies #[trigger] pixel_ok(
                    *self,
                    world.list@,
                    out@,
                    i0,
                    j0,
                ) by {
                    let base = 3 * (j0 * w + i0);
                    assert(base == 3 * j0 * w + 3 * i0) by (nonlinear_arith)
                        requires
                            base == 3 * (j0 * w + i0),
                    ;
                    if j0 < jj {
                        assert(3 * j0 * w + 3 * i0 + 2 < 3 * w * jj) by (nonlinear_arith)
                            requires
                                0 <= i0 < w,
                                0 <= j0 < jj,
                        ;
                        assert(out@[base] == oldout[base]);
                        assert(out@[base + 1] == oldout[base + 1]);
                        assert(out@[base + 2] == oldout[base + 2]);
                        assert(pixel_ok(*self, world.list@, oldout, i0, j0));
                    } else {
                        assert(3 * j0 * w + 3 * i0 == 3 * w * jj + 3 * i0) by (nonlinear_arith)
                            requires
                                j0 == jj,
                        ;
                        assert(out@[base] == rowseq[3 * i0]);
                        assert(out@[base + 1] == rowseq[3 * i0 + 1]);
                        assert(out@[base + 2] == rowseq[3 * i0 + 2]);
                        assert(possible_pixel(
                            *self,
                            i0 as u32,
                            j,
                            world.list@,
                            rowseq[3 * i0],
                            rowseq[3 * i0 + 1],
                            rowseq[3 * i0 + 2],
                        ));
                    }
                }
            }
            j = j + 1;
        }
        out
    }
}

} // verus!
