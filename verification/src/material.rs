//! Surface materials and their scattering behavior: diffuse (Lambertian),
//! metallic (mirror reflection with fuzz) and dielectric (glass, with
//! Schlick-approximated reflectance and total internal reflection).
//!
//! The set of materials is closed, so dispatch is a match over the
//! [`Material`] sum type.

use vstd::prelude::*;
use crate::fixed::{SCALE, fadd, fsub, fmul, fdiv, fsqrt, fmin, fmax, fx_add, fx_sub, fx_mul,
    fx_div, fx_sqrt, fx_min, fx_max};
use crate::hit::HitRecord;
use crate::ray::Ray;
use crate::rng::rand_fixed_range;
use crate::vec3::{Vec3, vadd, vneg, vscale, sdot, slen_sq, sunit, sreflect, srefract, snear_zero,
    unit_draw};

verus! {

/// A successful scatter: the continuing ray and the per-channel attenuation
/// it carries.
pub struct Scatter {
    pub attenuation: Vec3,
    pub scattered: Ray,
}

#[derive(Clone, Copy, Debug, PartialEq, Eq, Structural)]
pub struct LambertianMaterial {
    pub albedo: Vec3,
}

#[derive(Clone, Copy, Debug, PartialEq, Eq, Structural)]
pub struct MetalMaterial {
    pub albedo: Vec3,
    pub fuzz: i64,
}

#[derive(Clone, Copy, Debug, PartialEq, Eq, Structural)]
pub struct DielectricMaterial {
    pub refraction_index: i64,
}

/// The closed set of surface materials.
#[derive(Clone, Copy, Debug, PartialEq, Eq, Structural)]
pub enum Material {
    Lambertian(LambertianMaterial),
    Metal(MetalMaterial),
    Dielectric(DielectricMaterial),
}

/// A material the renderer can scatter off: a dielectric needs a positive
/// refraction index.
pub open spec fn material_wf(m: Material) -> bool {
    match m {
        Material::Dielectric(d) => d.refraction_index > 0,
        _ => true,
    }
}

/// Diffuse scatter direction: the surface normal plus a unit draw, with the
/// normal itself standing in when the sum degenerates.
pub open spec fn lambertian_dir(normal: Vec3, u: Vec3) -> Vec3 {
    let d = vadd(normal, u);
    if snear_zero(d) {
        normal
    } else {
        d
    }
}

/// Metallic scatter direction: the normalized mirror reflection, perturbed
/// by `fuzz` times a unit draw.
pub open spec fn metal_dir(incident: Vec3, normal: Vec3, fuzz: i64, u: Vec3) -> Vec3 {
    vadd(sunit(sreflect(incident, normal)), vscale(u, fuzz))
}

/// What a diffuse scatter result looks like: albedo attenuation, origin at
/// the hit point, direction built from some unit draw.
pub open spec fn lambertian_scatter_ok(l: LambertianMaterial, hit: HitRecord, sc: Scatter) -> bool {
    &&& sc.attenuation == l.albedo
    &&& sc.scattered.origin == hit.point
    &&& exists|p: Vec3|
        unit_draw(p) && sc.scattered.direction == lambertian_dir(hit.normal, #[trigger] sunit(p))
}

/// What a metallic scatter result looks like: albedo attenuation, origin at
/// the hit point, a fuzzed reflection that leaves the surface.
pub open spec fn metal_scatter_ok(m: MetalMaterial, ray: Ray, hit: HitRecord, sc: Scatter) -> bool {
    &&& sc.attenuation == m.albedo
    &&& sc.scattered.origin == hit.point
    &&& slen_sq(sreflect(ray.direction, hit.normal)) > 0
    &&& sdot(sc.scattered.direction, hit.normal) > 0
    &&& exists|p: Vec3|
        unit_draw(p) && sc.scattered.direction == metal_dir(
            ray.direction,
            hit.normal,
            m.fuzz,
            #[trigger] sunit(p),
        )
}

/// The index ratio a dielectric presents to a ray, depending on whether the
/// ray enters (front face) or leaves the medium.
pub open spec fn seffective_ri(d: DielectricMaterial, front_face: bool) -> i64 {
    if front_face {
        fdiv(SCALE, d.refraction_index)
    } else {
        d.refraction_index
    }
}

/// Cosine of the incidence angle of unit direction `v` against normal `n`,
/// capped at one.
pub open spec fn scos_theta(v: Vec3, n: Vec3) -> i64 {
    fmin(sdot(vneg(v), n), SCALE)
}

/// Sine from cosine: `sqrt(1 - cos^2)`, with rounding kept non-negative.
pub open spec fn ssin_theta(cos: i64) -> i64 {
    fsqrt(fmax(fsub(SCALE, fmul(cos, cos)), 0))
}

/// Snell's law has no solution: the index ratio times the sine exceeds one.
pub open spec fn scannot_refract(ri: i64, sin: i64) -> bool {
    fmul(ri, sin) > SCALE
}

/// Schlick's reflectance approximation:
/// `r0 + (1 - r0) (1 - cos)^5` with `r0 = ((1 - n)/(1 + n))^2`.
pub open spec fn sreflectance(cosine: i64, refraction_index: i64) -> i64 {
    let r0 = fdiv(fsub(SCALE, refraction_index), fadd(SCALE, refraction_index));
    let r0sq = fmul(r0, r0);
    let c = fsub(SCALE, cosine);
    fadd(r0sq, fmul(fsub(SCALE, r0sq), fmul(fmul(fmul(fmul(c, c), c), c), c)))
}

/// What a dielectric scatter result looks like: fully transparent
/// attenuation, origin at the hit point, and a direction that is either the
/// mirror reflection or the Snell refraction of the unit incident direction —
/// the reflection whenever refraction is impossible, the refraction whenever
/// the reflectance vanishes.
pub open spec fn dielectric_scatter_ok(
    d: DielectricMaterial,
    ray: Ray,
    hit: HitRecord,
    sc: Scatter,
) -> bool {
    let ud = sunit(ray.direction);
    let ri = seffective_ri(d, hit.front_face);
    let cos = scos_theta(ud, hit.normal);
    &&& sc.attenuation == (Vec3 { x: SCALE, y: SCALE, z: SCALE })
    &&& sc.scattered.origin == hit.point
    &&& (sc.scattered.direction == sreflect(ud, hit.normal) || sc.scattered.direction == srefract(
        ud,
        hit.normal,
        ri,
    ))
    &&& (scannot_refract(ri, ssin_theta(cos)) ==> sc.scattered.direction == sreflect(
        ud,
        hit.normal,
    ))
    &&& (!scannot_refract(ri, ssin_theta(cos)) && sreflectance(cos, ri) <= 0
        ==> sc.scattered.direction == srefract(ud, hit.normal, ri))
}

/// The metallic scatter for a given unit draw `u`: absorbed when the
/// reflection is measurably zero or when the fuzzed direction points into
/// the surface, else the fuzzed reflection cast from the hit point.
pub open spec fn metal_scatter_at(m: MetalMaterial, ray: Ray, hit: HitRecord, u: Vec3) -> Option<
    Scatter,
> {
    if slen_sq(sreflect(ray.direction, hit.normal)) <= 0 {
        None
    } else {
        let dir = metal_dir(ray.direction, hit.normal, m.fuzz, u);
        if sdot(dir, hit.normal) > 0 {
            Some(
                Scatter {
                    attenuation: m.albedo,
                    scattered: Ray { origin: hit.point, direction: dir },
                },
            )
        } else {
            None
        }
    }
}

/// The dielectric scatter for a given reflectance draw: reflect under total
/// internal reflection or when the reflectance exceeds the draw, refract
/// otherwise; always fully transparent, cast from the hit point.
pub open spec fn dielectric_scatter_at(
    d: DielectricMaterial,
    ray: Ray,
    hit: HitRecord,
    draw: i64,
) -> Scatter {
    let ud = sunit(ray.direction);
    let ri = seffective_ri(d, hit.front_face);
    let cos = scos_theta(ud, hit.normal);
    let direction = if scannot_refract(ri, ssin_theta(cos)) || sreflectance(cos, ri) > draw {
        sreflect(ud, hit.normal)
    } else {
        srefract(ud, hit.normal, ri)
    };
    Scatter {
        attenuation: Vec3 { x: SCALE, y: SCALE, z: SCALE },
        scattered: Ray { origin: hit.point, direction },
    }
}

/// A metallic absorption is possible: the reflection degenerates, or some
/// unit draw sends the fuzzed direction into the surface.
pub open spec fn metal_none_possible(m: MetalMaterial, ray: Ray, hit: HitRecord) -> bool {
    slen_sq(sreflect(ray.direction, hit.normal)) <= 0 || exists|p: Vec3|
        unit_draw(p) && sdot(
            metal_dir(ray.direction, hit.normal, m.fuzz, #[trigger] sunit(p)),
            hit.normal,
        ) <= 0
}

/// `r` is a possible outcome of scattering `m` at `hit`, for some outcome of
/// the random draws.
#[verifier::opaque]
pub open spec fn scatter_possible(m: Material, ray: Ray, hit: HitRecord, r: Option<Scatter>) -> bool {
    match m {
        Material::Lambertian(l) => r.is_some() && lambertian_scatter_ok(l, hit, r.unwrap()),
        Material::Metal(mm) => match r {
            Some(sc) => metal_scatter_ok(mm, ray, hit, sc),
            None => metal_none_possible(mm, ray, hit),
        },
        Material::Dielectric(d) => r.is_some() && dielectric_scatter_ok(d, ray, hit, r.unwrap()),
    }
}

impl LambertianMaterial {
    pub fn new(albedo: Vec3) -> (r: LambertianMaterial)
        ensures
            r.albedo == albedo,
    {
        LambertianMaterial { albedo }
    }

    /// Diffuse scatter: always scatters (never absorbs), in a direction
    /// biased toward the normal.
    pub fn scatter(&self, _ray: &Ray, hit: &HitRecord) -> (r: Option<Scatter>)
        ensures
            r.is_some(),
            lambertian_scatter_ok(*self, *hit, r.unwrap()),
    {
        let u = Vec3::random_unit();
        let candidate = hit.normal.plus(u);
        let scatter_dir = if candidate.is_near_zero() {
            hit.normal
        } else {
            candidate
        };
        let scattered = Ray::new(hit.point, scatter_dir);
        Some(Scatter { attenuation: self.albedo, scattered })
    }
}

impl MetalMaterial {
    pub fn new(albedo: Vec3, fuzz: i64) -> (r: MetalMaterial)
        ensures
            r.albedo == albedo,
            r.fuzz == fuzz,
    {
        MetalMaterial { albedo, fuzz }
    }

    /// The deterministic core of metallic scattering, for a given unit
    /// draw: exactly `metal_scatter_at`.
    pub fn scatter_with(&self, ray: &Ray, hit: &HitRecord, u: Vec3) -> (r: Option<Scatter>)
        ensures
            r == metal_scatter_at(*self, *ray, *hit, u),
    {
        let reflected = ray.direction.reflect(hit.normal);
        if reflected.len_squared() == 0 {
            return None;
        }
        let dir = reflected.unit().plus(u.scale(self.fuzz));
        let scattered = Ray::new(hit.point, dir);
        if scattered.direction.dot(hit.normal) > 0 {
            Some(Scatter { attenuation: self.albedo, scattered })
        } else {
            None
        }
    }

    /// Metallic scatter: reflect, normalize, perturb by fuzz; the ray is
    /// absorbed when the result would point into the surface (or when the
    /// reflection degenerates to a measurably zero vector).  The result is
    /// `metal_scatter_at` of some unit draw.
    pub fn scatter(&self, ray: &Ray, hit: &HitRecord) -> (r: Option<Scatter>)
        ensures
            exists|p: Vec3|
                unit_draw(p) && r == metal_scatter_at(*self, *ray, *hit, #[trigger] sunit(p)),
            r.is_some() ==> metal_scatter_ok(*self, *ray, *hit, r.unwrap()),
            r.is_none() ==> metal_none_possible(*self, *ray, *hit),
            self.fuzz == 0 ==> (r.is_some() <==> (slen_sq(sreflect(ray.direction, hit.normal)) > 0
                && sdot(sunit(sreflect(ray.direction, hit.normal)), hit.normal) > 0)),
    {
        let u = Vec3::random_unit();
        let r = self.scatter_with(ray, hit, u);
        proof {
            let p = choose|p: Vec3| unit_draw(p) && u == #[trigger] sunit(p);
            assert(unit_draw(p) && r == metal_scatter_at(*self, *ray, *hit, sunit(p)));
        }
        r
    }
}

impl DielectricMaterial {
    pub fn new(refraction_index: i64) -> (r: DielectricMaterial)
        ensures
            r.refraction_index == refraction_index,
    {
        DielectricMaterial { refraction_index }
    }

    /// Schlick's reflectance approximation.
    pub fn reflectance(&self, cosine: i64, refraction_index: i64) -> (r: i64)
        requires
            refraction_index >= 0,
        ensures
            r == sreflectance(cosine, refraction_index),
    {
        let r0 = fx_div(fx_sub(SCALE, refraction_index), fx_add(SCALE, refraction_index));
        let r0sq = fx_mul(r0, r0);
        let c = fx_sub(SCALE, cosine);
        fx_add(r0sq, fx_mul(fx_sub(SCALE, r0sq), fx_mul(fx_mul(fx_mul(fx_mul(c, c), c), c), c)))
    }

    /// The deterministic core of dielectric scattering, for a given
    /// reflectance draw: exactly `dielectric_scatter_at`.
    pub fn scatter_with(&self, ray: &Ray, hit: &HitRecord, draw: i64) -> (r: Scatter)
        requires
            slen_sq(ray.direction) > 0,
            self.refraction_index > 0,
        ensures
            r == dielectric_scatter_at(*self, *ray, *hit, draw),
    {
        let ri = if hit.front_face {
            fx_div(SCALE, self.refraction_index)
        } else {
            self.refraction_index
        };
        let unit_dir = ray.direction.unit();
        let cos_theta = fx_min(unit_dir.neg().dot(hit.normal), SCALE);
        let sin_theta = fx_sqrt(fx_max(fx_sub(SCALE, fx_mul(cos_theta, cos_theta)), 0));
        let cannot_refract = fx_mul(ri, sin_theta) > SCALE;
        proof {
            crate::fixed::lemma_tdiv_bounds(SCALE * SCALE, self.refraction_index as int);
        }
        let direction = if cannot_refract || self.reflectance(cos_theta, ri) > draw {
            unit_dir.reflect(hit.normal)
        } else {
            unit_dir.refract(hit.normal, ri)
        };
        let scattered = Ray::new(hit.point, direction);
        let attenuation = Vec3::splat(SCALE);
        Scatter { attenuation, scattered }
    }

    /// Dielectric scatter: always scatters, choosing between reflection and
    /// refraction — forced to reflect under total internal reflection, and
    /// otherwise reflecting with probability given by the reflectance.  The
    /// result is `dielectric_scatter_at` of some draw in `[0, 1)`.
    pub fn scatter(&self, ray: &Ray, hit: &HitRecord) -> (r: Option<Scatter>)
        requires
            slen_sq(ray.direction) > 0,
            self.refraction_index > 0,
        ensures
            r.is_some(),
            dielectric_scatter_ok(*self, *ray, *hit, r.unwrap()),
            exists|draw: i64|
                0 <= draw < SCALE && r.unwrap() == #[trigger] dielectric_scatter_at(
                    *self,
                    *ray,
                    *hit,
                    draw,
                ),
    {
        let draw = rand_fixed_range(0, SCALE);
        let sc = self.scatter_with(ray, hit, draw);
        proof {
            assert(0 <= draw < SCALE && sc == dielectric_scatter_at(*self, *ray, *hit, draw));
        }
        Some(sc)
    }
}

impl Material {
    /// Dispatch over the closed material set.
    pub fn scatter(&self, ray: &Ray, hit: &HitRecord) -> (r: Option<Scatter>)
        requires
            slen_sq(ray.direction) > 0,
            material_wf(*self),
        ensures
            scatter_possible(*self, *ray, *hit, r),
    {
        proof {
            reveal(scatter_possible);
        }
        match self {
            Material::Lambertian(l) => l.scatter(ray, hit),
            Material::Metal(m) => m.scatter(ray, hit),
            Material::Dielectric(d) => d.scatter(ray, hit),
        }
    }
}

} // verus!
