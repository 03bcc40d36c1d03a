//! The intersection protocol: hit records, the `HitTable` capability,
//! and the scene aggregate that scans its primitives for the closest
//! hit.

use crate::fixed::{mag, CMAX};
use crate::material::{mat_wf, MaterialKind};
use crate::ray::Ray;
use crate::sphere::{sphere_hit_s, sphere_wf, Sphere};
use crate::vec3::{in_range, Vec3};
use vstd::prelude::*;

verus! {

/// A successful intersection: the ray parameter, the world point, the
/// outward surface normal and the material met there.
#[derive(Clone, Copy, Debug, PartialEq, Eq, Structural)]
pub struct HitRecord {
    pub t: i64,
    pub p: Vec3,
    pub normal: Vec3,
    pub material: MaterialKind,
}

impl HitRecord {
    pub fn new(t: i64, p: Vec3, normal: Vec3, material: MaterialKind) -> (rec: HitRecord)
        ensures
            rec == (HitRecord { t, p, normal, material }),
    {
        HitRecord { t, p, normal, material }
    }

    pub fn get_t(&self) -> (t: i64)
        ensures
            t == self.t,
    {
        self.t
    }

    pub fn set_t(&mut self, t: i64)
        ensures
            *final(self) == (HitRecord { t, ..*old(self) }),
    {
        self.t = t;
    }

    pub fn get_p(&self) -> (p: &Vec3)
        ensures
            *p == self.p,
    {
        &self.p
    }

    pub fn set_p(&mut self, p: Vec3)
        ensures
            *final(self) == (HitRecord { p, ..*old(self) }),
    {
        self.p = p;
    }

    pub fn get_normal(&self) -> (normal: &Vec3)
        ensures
            *normal == self.normal,
    {
        &self.normal
    }

    pub fn set_normal(&mut self, normal: Vec3)
        ensures
            *final(self) == (HitRecord { normal, ..*old(self) }),
    {
        self.normal = normal;
    }

    pub fn get_material(&self) -> (material: &MaterialKind)
        ensures
            *material == self.material,
    {
        &self.material
    }
}

/// The hit-testing capability: report the closest intersection with a
/// ray parameter strictly inside `(t_min, t_max)`, or none.
pub trait HitTable {
    spec fn wf(&self) -> bool;

    fn hit(&self, r: &Ray, t_min: i64, t_max: i64) -> (res: Option<HitRecord>)
        requires
            self.wf(),
            in_range(r.origin, CMAX as int),
            in_range(r.direction, CMAX as int),
            mag(t_min as int) <= CMAX as int,
            mag(t_max as int) <= CMAX as int,
        ensures
            res matches Some(rec) ==> t_min < rec.t < t_max,
    ;
}

/// What the aggregate returns for the primitives after index `i`, given
/// the closest parameter seen so far and the best record so far: the
/// shrinking-interval scan of the stored order.
pub open spec fn list_hit_from(
    list: Seq<Sphere>,
    i: int,
    r: Ray,
    t_min: int,
    closest: int,
    best: Option<HitRecord>,
) -> Option<HitRecord>
    decreases list.len() - i,
{
    if i < 0 || i >= list.len() {
        best
    } else {
        match sphere_hit_s(list[i], r, t_min, closest) {
            Some(rec) => list_hit_from(list, i + 1, r, t_min, rec.t as int, Some(rec)),
            None => list_hit_from(list, i + 1, r, t_min, closest, best),
        }
    }
}

/// The closest hit across the whole aggregate; on an exact parameter
/// tie the first-inserted primitive wins.
pub open spec fn list_hit_s(list: Seq<Sphere>, r: Ray, t_min: int, t_max: int) -> Option<
    HitRecord,
> {
    list_hit_from(list, 0, r, t_min, t_max, None)
}

/// Every stored primitive is well formed.
pub open spec fn world_wf(list: Seq<Sphere>) -> bool {
    forall|i: int| 0 <= i < list.len() ==> sphere_wf(#[trigger] list[i])
}

/// A record the shrinking scan can return carries a material from the
/// list, so a well-formed list yields well-formed materials.
pub proof fn lemma_list_hit_material(
    list: Seq<Sphere>,
    i: int,
    r: Ray,
    t_min: int,
    closest: int,
    best: Option<HitRecord>,
)
    requires
        world_wf(list),
        best matches Some(b) ==> mat_wf(b.material),
    ensures
        list_hit_from(list, i, r, t_min, closest, best) matches Some(rec) ==> mat_wf(rec.material),
    decreases list.len() - i,
{
    if 0 <= i < list.len() {
        match sphere_hit_s(list[i], r, t_min, closest) {
            Some(rec) => {
                lemma_list_hit_material(list, i + 1, r, t_min, rec.t as int, Some(rec));
            },
            None => {
                lemma_list_hit_material(list, i + 1, r, t_min, closest, best);
            },
        }
    }
}

/// An ordered collection of primitives queried as one.
pub struct HitTableList {
    pub list: Vec<Sphere>,
}

impl HitTableList {
    pub fn new() -> (l: HitTableList)
        ensures
            l.list@ =~= Seq::<Sphere>::empty(),
    {
        HitTableList { list: Vec::new() }
    }

    pub fn add(&mut self, ht: Sphere)
        ensures
            final(self).list@ =~= old(self).list@.push(ht),
    {
        self.list.push(ht)
    }
}

impl HitTable for HitTableList {
    /// Every stored primitive is well formed.
    open spec fn wf(&self) -> bool {
        world_wf(self.list@)
    }

    /// Scan the primitives in stored order, shrinking the upper bound of
    /// the query interval to the closest parameter seen, so the record
    /// returned is the one with globally minimal `t`.
    fn hit(&self, r: &Ray, t_min: i64, t_max: i64) -> (res: Option<HitRecord>)
        ensures
            res == list_hit_s(self.list@, *r, t_min as int, t_max as int),
    {
        let mut closest_so_far: i64 = t_max;
        let mut hit: Option<HitRecord> = None;
        let mut i: usize = 0;
        while i < self.list.len()
            invariant
                0 <= i <= self.list@.len(),
                self.wf(),
                in_range(r.origin, CMAX as int),
                in_range(r.direction, CMAX as int),
                mag(t_min as int) <= CMAX as int,
                mag(t_max as int) <= CMAX as int,
                mag(closest_so_far as int) <= CMAX as int,
                hit matches Some(rec) ==> t_min < rec.t < t_max && rec.t == closest_so_far,
                hit is None ==> closest_so_far == t_max,
                list_hit_s(self.list@, *r, t_min as int, t_max as int) == list_hit_from(
                    self.list@,
                    i as int,
                    *r,
                    t_min as int,
                    closest_so_far as int,
                    hit,
                ),
            decreases self.list@.len() - i,
        {
            if let Some(hc) = self.list[i].hit(r, t_min, closest_so_far) {
                closest_so_far = hc.get_t();
                hit = Some(hc);
            }
            i = i + 1;
        }
        hit
    }
}

} // verus!
