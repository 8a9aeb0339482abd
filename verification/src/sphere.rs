//! Spheres, the scene's analytic primitive, and their ray intersection.

use vstd::prelude::*;
use crate::fixed::{fadd, fsub, fmul, fdiv, fsqrt, fx_add, fx_sub, fx_mul, fx_div, fx_sqrt};
use crate::hit::{HitRecord, hit_record};
use crate::interval::Interval;
use crate::material::{Material, material_wf};
use crate::ray::{Ray, ray_at};
use crate::vec3::{Vec3, vsub, vdiv_by, sdot, slen_sq};

verus! {

#[derive(Clone, Copy, Debug, PartialEq, Eq, Structural)]
pub struct Sphere {
    pub center: Vec3,
    pub radius: i64,
    pub material: Material,
}

/// A sphere the renderer can intersect and shade: positive radius and a
/// well-formed material.
pub open spec fn sphere_wf(s: Sphere) -> bool {
    s.radius > 0 && material_wf(s.material)
}

/// Ray-sphere intersection: solve `|O + t D - C|^2 = r^2` through the
/// half-discriminant form, take the smaller root if the window holds it,
/// else the larger, else miss.  A degenerate (measurably zero) direction
/// never hits.
#[verifier::opaque]
pub open spec fn sphere_hit(s: Sphere, ray: Ray, ray_t: Interval) -> Option<HitRecord> {
    let oc = vsub(s.center, ray.origin);
    let a = slen_sq(ray.direction);
    let b = sdot(ray.direction, oc);
    let c = fsub(slen_sq(oc), fmul(s.radius, s.radius));
    let d = fsub(fmul(b, b), fmul(a, c));
    if a <= 0 || d < 0 {
        None
    } else {
        let sqrtd = fsqrt(d);
        let t1 = fdiv(fsub(b, sqrtd), a);
        let t2 = fdiv(fadd(b, sqrtd), a);
        if ray_t.min < t1 && t1 < ray_t.max {
            Some(sphere_record(s, ray, t1))
        } else if ray_t.min < t2 && t2 < ray_t.max {
            Some(sphere_record(s, ray, t2))
        } else {
            None
        }
    }
}

/// The record built for a hit of `s` at parameter `t`: the hit point and the
/// outward normal `(point - center) / radius`.
pub open spec fn sphere_record(s: Sphere, ray: Ray, t: i64) -> HitRecord {
    let point = ray_at(ray, t);
    hit_record(ray, point, vdiv_by(vsub(point, s.center), s.radius), t, s.material)
}

/// A sphere hit lies strictly inside the search window.
pub proof fn lemma_sphere_hit_in_window(s: Sphere, ray: Ray, ray_t: Interval)
    ensures
        sphere_hit(s, ray, ray_t).is_some() ==> ray_t.min < sphere_hit(s, ray, ray_t).unwrap().t
            < ray_t.max,
{
    reveal(sphere_hit);
}

/// Widening the search window can only keep a hit at the same parameter or
/// move it to a farther one, and can only turn a miss into a hit at or past
/// the old upper bound.  This is what makes the shrinking-window scan of the
/// scene aggregate a nearest-hit search.
pub proof fn lemma_sphere_hit_widen(s: Sphere, ray: Ray, tmin: i64, m: i64, big: i64)
    requires
        m <= big,
    ensures
        sphere_hit(s, ray, Interval { min: tmin, max: m }).is_some() ==> (sphere_hit(
            s,
            ray,
            Interval { min: tmin, max: big },
        ).is_some() && sphere_hit(s, ray, Interval { min: tmin, max: big }).unwrap().t
            >= sphere_hit(s, ray, Interval { min: tmin, max: m }).unwrap().t),
        sphere_hit(s, ray, Interval { min: tmin, max: m }).is_none() ==> (sphere_hit(
            s,
            ray,
            Interval { min: tmin, max: big },
        ).is_none() || sphere_hit(s, ray, Interval { min: tmin, max: big }).unwrap().t >= m),
{
    reveal(sphere_hit);
}

impl Sphere {
    pub fn new(center: Vec3, radius: i64, material: Material) -> (r: Sphere)
        requires
            radius > 0,
        ensures
            r == (Sphere { center, radius, material }),
    {
        Sphere { center, radius, material }
    }

    /// Nearest intersection of the ray with this sphere inside the open
    /// window, if any.
    pub fn hit(&self, ray: &Ray, ray_t: Interval) -> (r: Option<HitRecord>)
        requires
            self.radius > 0,
        ensures
            r == sphere_hit(*self, *ray, ray_t),
            r.is_some() ==> ray_t.min < r.unwrap().t < ray_t.max,
            r.is_some() ==> r.unwrap().material == self.material,
    {
        proof {
            reveal(sphere_hit);
        }
        let oc = self.center.minus(ray.origin);
        let a = ray.direction.len_squared();
        let b = ray.direction.dot(oc);
        let c = fx_sub(oc.len_squared(), fx_mul(self.radius, self.radius));
        let d = fx_sub(fx_mul(b, b), fx_mul(a, c));
        if a <= 0 || d < 0 {
            return None;
        }
        let sqrtd = fx_sqrt(d);
        let mut t = fx_div(fx_sub(b, sqrtd), a);
        if !ray_t.surrounds(t) {
            t = fx_div(fx_add(b, sqrtd), a);
            if !ray_t.surrounds(t) {
                return None;
            }
        }
        let point = ray.at(t);
        let outward_normal = point.minus(self.center).div_by(self.radius);
        Some(HitRecord::new(ray, point, outward_normal, t, self.material))
    }
}

} // verus!
