//! Hit records and the scene aggregate: nearest-hit search over a shrinking
//! parameter window.

use vstd::prelude::*;
use crate::interval::Interval;
use crate::material::Material;
use crate::ray::Ray;
use crate::sphere::{Sphere, sphere_hit, sphere_wf};
use crate::vec3::{Vec3, vscale, sdot};

verus! {

#[derive(Clone, Copy, Debug, PartialEq, Eq, Structural)]
pub struct HitRecord {
    pub point: Vec3,
    pub normal: Vec3,
    pub t: i64,
    pub front_face: bool,
    pub material: Material,
}

/// The record a successful intersection builds: the normal is turned against
/// the incident ray, and `front_face` remembers which side was struck.
pub open spec fn hit_record(ray: Ray, point: Vec3, outward_normal: Vec3, t: i64, material: Material)
    -> HitRecord {
    let front_face = sdot(ray.direction, outward_normal) < 0;
    HitRecord {
        point,
        normal: if front_face {
            outward_normal
        } else {
            vscale(outward_normal, -65536i64)
        },
        t,
        front_face,
        material,
    }
}

impl HitRecord {
    pub fn new(ray: &Ray, point: Vec3, outward_normal: Vec3, t: i64, material: Material) -> (r:
        HitRecord)
        ensures
            r == hit_record(*ray, point, outward_normal, t, material),
    {
        let front_face = ray.direction.dot(outward_normal) < 0;
        let normal = if front_face {
            outward_normal
        } else {
            outward_normal.scale(-65536)
        };
        HitRecord { point, normal, t, front_face, material }
    }
}

/// The nearest-hit fold: each member is tested against the window shrunk to
/// the closest hit found so far, and a hit replaces the running best.
pub open spec fn world_hit_from(list: Seq<Sphere>, ray: Ray, ray_t: Interval, acc: Option<
    HitRecord,
>) -> Option<HitRecord>
    decreases list.len(),
{
    if list.len() == 0 {
        acc
    } else {
        let closest = match acc {
            Some(h) => h.t,
            None => ray_t.max,
        };
        let acc2 = match sphere_hit(list[0], ray, Interval { min: ray_t.min, max: closest }) {
            Some(h) => Some(h),
            None => acc,
        };
        world_hit_from(list.subrange(1, list.len() as int), ray, ray_t, acc2)
    }
}

/// What the scene aggregate returns for a ray over a search window.
pub open spec fn world_hit(list: Seq<Sphere>, ray: Ray, ray_t: Interval) -> Option<HitRecord> {
    world_hit_from(list, ray, ray_t, None)
}

/// Every member of the scene is well-formed.
pub open spec fn world_wf(list: Seq<Sphere>) -> bool {
    forall|k: int| 0 <= k < list.len() ==> sphere_wf(#[trigger] list[k])
}

/// The fold's running best only improves on what it starts from, and ends
/// at or below every member's own hit parameter over the starting window.
proof fn lemma_world_hit_from_nearest(
    list: Seq<Sphere>,
    ray: Ray,
    ray_t: Interval,
    acc: Option<HitRecord>,
)
    requires
        acc.is_some() ==> acc.unwrap().t <= ray_t.max,
    ensures
        world_hit_from(list, ray, ray_t, acc).is_none() ==> (acc.is_none() && forall|k: int|
            0 <= k < list.len() ==> sphere_hit(#[trigger] list[k], ray, ray_t).is_none()),
        world_hit_from(list, ray, ray_t, acc).is_some() ==> world_hit_from(
            list,
            ray,
            ray_t,
            acc,
        ).unwrap().t <= (match acc {
            Some(a) => a.t,
            None => ray_t.max,
        }),
        world_hit_from(list, ray, ray_t, acc).is_some() ==> forall|k: int|
            0 <= k < list.len() && sphere_hit(#[trigger] list[k], ray, ray_t).is_some()
                ==> world_hit_from(list, ray, ray_t, acc).unwrap().t <= sphere_hit(
                list[k],
                ray,
                ray_t,
            ).unwrap().t,
    decreases list.len(),
{
    if list.len() == 0 {
    } else {
        let s0 = list[0];
        let tail = list.subrange(1, list.len() as int);
        let m0 = match acc {
            Some(a) => a.t,
            None => ray_t.max,
        };
        let shrunk = Interval { min: ray_t.min, max: m0 };
        let sh = sphere_hit(s0, ray, shrunk);
        let acc2 = match sh {
            Some(h) => Some(h),
            None => acc,
        };
        crate::sphere::lemma_sphere_hit_in_window(s0, ray, shrunk);
        crate::sphere::lemma_sphere_hit_widen(s0, ray, ray_t.min, m0, ray_t.max);
        if acc.is_none() {
            assert(shrunk == ray_t);
        }
        lemma_world_hit_from_nearest(tail, ray, ray_t, acc2);
        let res = world_hit_from(list, ray, ray_t, acc);
        assert(res == world_hit_from(tail, ray, ray_t, acc2));
        if res.is_none() {
            assert forall|k: int| 0 <= k < list.len() implies sphere_hit(
                #[trigger] list[k],
                ray,
                ray_t,
            ).is_none() by {
                if k >= 1 {
                    assert(list[k] == tail[k - 1]);
                }
            }
        } else {
            assert forall|k: int|
                0 <= k < list.len() && sphere_hit(#[trigger] list[k], ray, ray_t).is_some()
                    implies res.unwrap().t <= sphere_hit(list[k], ray, ray_t).unwrap().t by {
                if k >= 1 {
                    assert(list[k] == tail[k - 1]);
                }
            }
        }
    }
}

/// Nearest-hit law: when the scene aggregate reports a hit over a window, no
/// member sphere has a hit at a smaller ray parameter over that same window,
/// whatever the insertion order; when it reports a miss, no member hits at
/// all.
pub proof fn lemma_world_hit_nearest(list: Seq<Sphere>, ray: Ray, ray_t: Interval)
    ensures
        world_hit(list, ray, ray_t).is_none() ==> forall|k: int|
            0 <= k < list.len() ==> sphere_hit(#[trigger] list[k], ray, ray_t).is_none(),
        world_hit(list, ray, ray_t).is_some() ==> forall|k: int|
            0 <= k < list.len() && sphere_hit(#[trigger] list[k], ray, ray_t).is_some()
                ==> world_hit(list, ray, ray_t).unwrap().t <= sphere_hit(
                list[k],
                ray,
                ray_t,
            ).unwrap().t,
{
    lemma_world_hit_from_nearest(list, ray, ray_t, None);
}

/// The scene: a flat collection of spheres, searched linearly.
pub struct HitWorld {
    pub list: Vec<Sphere>,
}

impl HitWorld {
    pub fn new() -> (r: HitWorld)
        ensures
            r.list@ =~= Seq::<Sphere>::empty(),
    {
        HitWorld { list: Vec::new() }
    }

    pub fn push(&mut self, target: Sphere)
        ensures
            final(self).list@ == old(self).list@.push(target),
    {
        self.list.push(target);
    }

    /// Nearest-hit search: linear scan with a shrinking upper bound, so the
    /// returned hit (if any) is the globally nearest one in the window.
    pub fn hit(&self, ray: &Ray, ray_t: Interval) -> (r: Option<HitRecord>)
        requires
            world_wf(self.list@),
        ensures
            r == world_hit(self.list@, *ray, ray_t),
            r.is_some() ==> crate::material::material_wf(r.unwrap().material),
    {
        let ghost full = self.list@;
        proof {
            assert(full.subrange(0, full.len() as int) =~= full);
        }
        let mut closest_so_far = ray_t.max;
        let mut last_hit: Option<HitRecord> = None;
        let mut i: usize = 0;
        while i < self.list.len()
            invariant
                world_wf(full),
                self.list@ == full,
                i <= full.len(),
                closest_so_far == (match last_hit {
                    Some(h) => h.t,
                    None => ray_t.max,
                }),
                last_hit.is_some() ==> crate::material::material_wf(last_hit.unwrap().material),
                world_hit(full, *ray, ray_t) == world_hit_from(
                    full.subrange(i as int, full.len() as int),
                    *ray,
                    ray_t,
                    last_hit,
                ),
            decreases full.len() - i,
        {
            let target = self.list[i];
            let ghost rest = full.subrange(i as int, full.len() as int);
            let res = target.hit(ray, ray_t.with_max(closest_so_far));
            proof {
                assert(rest[0] == full[i as int]);
                assert(rest.subrange(1, rest.len() as int) =~= full.subrange(
                    i + 1,
                    full.len() as int,
                ));
            }
            match res {
                Some(h) => {
                    closest_so_far = h.t;
                    last_hit = Some(h);
                },
                None => {},
            }
            i = i + 1;
        }
        proof {
            assert(full.subrange(full.len() as int, full.len() as int) =~= Seq::<Sphere>::empty());
        }
        last_hit
    }
}

} // verus!
