//! The intersection contract and the scene aggregate.
//!
//! `Hittable` pairs the executable `hit` with a spec-level model
//! `hit_spec`, so the closest-hit search over a scene is specified
//! exactly: each member is tested against the shrinking span whose
//! upper end is the best parameter found so far, and the strict span
//! membership makes the earlier of two exactly equal hits win.

use vstd::prelude::*;
use crate::vec3::{Vec3, vec_zero, vec_neg_s, dot_s, len_sqr_s};
use crate::ray::Ray;
use crate::interval::{Span, Interval};
use crate::material::Material;

verus! {

#[derive(Clone, Copy, Debug)]
pub struct HitRecord {
    pub p: Vec3,
    pub normal: Vec3,
    pub t: i64,
    pub front_face: bool,
}

/// The record with the stored normal oriented against the incoming
/// ray: the outward normal if the ray arrives from outside, else its
/// negation.
pub open spec fn set_face_normal_s(h: HitRecord, r: Ray, out_normal: Vec3) -> HitRecord {
    let ff = dot_s(r.dir, out_normal) < 0;
    HitRecord {
        normal: if ff {
            out_normal
        } else {
            vec_neg_s(out_normal)
        },
        front_face: ff,
        ..h
    }
}

impl HitRecord {
    pub fn new() -> (r: HitRecord)
        ensures
            r.p == vec_zero(),
            r.normal == vec_zero(),
            r.t == 0,
            !r.front_face,
    {
        HitRecord { p: vec_zero_exec(), normal: vec_zero_exec(), t: 0, front_face: false }
    }

    pub fn set_face_normal(&mut self, r: &Ray, out_normal: &Vec3)
        ensures
            *final(self) == set_face_normal_s(*old(self), *r, *out_normal),
    {
        self.front_face = r.direction().dot(out_normal) < 0;
        self.normal = if self.front_face {
            *out_normal
        } else {
            out_normal.neg()
        };
    }
}

fn vec_zero_exec() -> (r: Vec3)
    ensures
        r == vec_zero(),
{
    crate::vec3::empty()
}

/// The polymorphic intersection contract.
pub trait Hittable: Sized {
    /// Well-formedness of the geometry, including its material.
    spec fn wf(&self) -> bool;

    /// The intersection model: the record and material of the nearest
    /// hit whose parameter lies strictly inside `(t0, t1)`, if any.
    spec fn hit_spec(&self, r: Ray, t0: int, t1: int) -> Option<(HitRecord, Material)>;

    /// Facts every implementation provides about its model: a hit's
    /// parameter lies strictly inside the queried span, a hit implies
    /// a non-degenerate ray direction, and a well-formed geometry
    /// hands out only well-formed materials.
    proof fn hit_spec_facts(&self, r: Ray, t0: int, t1: int)
        ensures
            self.hit_spec(r, t0, t1) is Some ==> {
                let hm = self.hit_spec(r, t0, t1)->Some_0;
                &&& t0 < (hm.0.t as int) && (hm.0.t as int) < t1
                &&& len_sqr_s(r.dir) > 0
                &&& (self.wf() ==> hm.1.wf())
            },
    ;

    /// On a hit, fills `rec` with the model's record and returns the
    /// material; on a miss, leaves `rec` untouched.
    fn hit(&self, r: &Ray, ray_t: Span, rec: &mut HitRecord) -> (res: Option<Material>)
        ensures
            match self.hit_spec(*r, ray_t.start as int, ray_t.end as int) {
                Some(hm) => res == Some(hm.1) && *final(rec) == hm.0,
                None => res is None && *final(rec) == *old(rec),
            },
    ;
}

/// The closest hit over a sequence of members, tested in storage
/// order: each member is queried against the span capped by the best
/// parameter so far.
pub open spec fn list_hit_s<H: Hittable>(objs: Seq<H>, r: Ray, t0: int, t1: int) -> Option<
    (HitRecord, Material),
>
    decreases objs.len(),
{
    if objs.len() == 0 {
        None
    } else {
        let prev = list_hit_s(objs.drop_last(), r, t0, t1);
        let bound = match prev {
            Some(hm) => hm.0.t as int,
            None => t1,
        };
        match objs.last().hit_spec(r, t0, bound) {
            Some(hm) => Some(hm),
            None => prev,
        }
    }
}

/// The facts of `Hittable::hit_spec_facts`, lifted to the list fold.
pub proof fn lemma_list_hit_facts<H: Hittable>(objs: Seq<H>, r: Ray, t0: int, t1: int)
    requires
        t0 <= t1,
    ensures
        list_hit_s(objs, r, t0, t1) is Some ==> {
            let hm = list_hit_s(objs, r, t0, t1)->Some_0;
            &&& t0 < (hm.0.t as int) && (hm.0.t as int) < t1
            &&& len_sqr_s(r.dir) > 0
            &&& ((forall|i: int| 0 <= i < objs.len() ==> #[trigger] objs[i].wf()) ==> hm.1.wf())
        },
    decreases objs.len(),
{
    if objs.len() == 0 {
    } else {
        lemma_list_hit_facts(objs.drop_last(), r, t0, t1);
        let prev = list_hit_s(objs.drop_last(), r, t0, t1);
        let bound = match prev {
            Some(hm) => hm.0.t as int,
            None => t1,
        };
        objs.last().hit_spec_facts(r, t0, bound);
        assert(objs.last() == objs[objs.len() - 1]);
        assert(forall|i: int|
            0 <= i < objs.drop_last().len() ==> #[trigger] objs.drop_last()[i].wf() == objs[i].wf());
    }
}

/// An ordered collection of geometry, hit in storage order.
pub struct HittableList<H> {
    pub objects: Vec<H>,
}

impl<H: Hittable> HittableList<H> {
    pub fn new() -> (r: Self)
        ensures
            r.objects@.len() == 0,
    {
        HittableList { objects: Vec::new() }
    }

    pub fn add(&mut self, obj: H)
        ensures
            final(self).objects@ == old(self).objects@.push(obj),
    {
        self.objects.push(obj);
    }
}

impl<H: Hittable> Hittable for HittableList<H> {
    open spec fn wf(&self) -> bool {
        forall|i: int| 0 <= i < self.objects@.len() ==> #[trigger] self.objects@[i].wf()
    }

    open spec fn hit_spec(&self, r: Ray, t0: int, t1: int) -> Option<(HitRecord, Material)> {
        list_hit_s(self.objects@, r, t0, t1)
    }

    proof fn hit_spec_facts(&self, r: Ray, t0: int, t1: int) {
        if t0 <= t1 {
            lemma_list_hit_facts(self.objects@, r, t0, t1);
        } else {
            lemma_list_hit_none_when_empty_span(self.objects@, r, t0, t1);
        }
    }

    fn hit(&self, r: &Ray, ray_t: Span, rec: &mut HitRecord) -> (res: Option<Material>) {
        let mut temp_rec: HitRecord = HitRecord::new();
        let mut closest: i64 = ray_t.end;
        let mut mat: Option<Material> = None;
        let mut i: usize = 0;
        let ghost t0 = ray_t.start as int;
        let ghost t1 = ray_t.end as int;
        while i < self.objects.len()
            invariant
                i <= self.objects.len(),
                t0 == ray_t.start as int,
                t1 == ray_t.end as int,
                match list_hit_s(self.objects@.take(i as int), *r, t0, t1) {
                    Some(hm) => {
                        &&& mat == Some(hm.1)
                        &&& temp_rec == hm.0
                        &&& closest as int == hm.0.t as int
                        &&& *rec == hm.0
                    },
                    None => {
                        &&& mat is None
                        &&& closest == ray_t.end
                        &&& *rec == *old(rec)
                    },
                },
            decreases self.objects.len() - i,
        {
            let obj = &self.objects[i];
            let res_i: Option<Material> = obj.hit(r, Span { start: ray_t.start, end: closest },
                &mut temp_rec);
            proof {
                assert(self.objects@.take(i + 1).drop_last() =~= self.objects@.take(i as int));
                assert(self.objects@.take(i + 1).last() == self.objects@[i as int]);
            }
            match res_i {
                Some(m) => {
                    mat = Some(m);
                    *rec = temp_rec;
                    closest = temp_rec.t;
                },
                None => {
                },
            }
            i = i + 1;
        }
        proof {
            assert(self.objects@.take(self.objects@.len() as int) =~= self.objects@);
        }
        mat
    }
}

/// An empty span admits no hit, whatever the members hold.
pub proof fn lemma_list_hit_none_when_empty_span<H: Hittable>(objs: Seq<H>, r: Ray, t0: int, t1: int)
    requires
        t1 < t0,
    ensures
        list_hit_s(objs, r, t0, t1) is None,
    decreases objs.len(),
{
    if objs.len() > 0 {
        lemma_list_hit_none_when_empty_span(objs.drop_last(), r, t0, t1);
        objs.last().hit_spec_facts(r, t0, t1);
    }
}

} // verus!
