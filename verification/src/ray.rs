//! Rays: an origin and a direction, with point-at-parameter
//! evaluation.

use vstd::prelude::*;
use crate::vec3::{Vec3, vec_zero, vec_add_s, vec_mul_f_s, empty};

verus! {

#[derive(Clone, Copy, Debug, PartialEq, Eq, Structural)]
pub struct Ray {
    pub orig: Vec3,
    pub dir: Vec3,
}

/// The point reached after travelling `t` along the ray.
pub open spec fn ray_at_s(r: Ray, t: int) -> Vec3 {
    vec_add_s(r.orig, vec_mul_f_s(r.dir, t))
}

impl Ray {
    pub fn empty() -> (r: Ray)
        ensures
            r.orig == vec_zero(),
            r.dir == vec_zero(),
    {
        Ray { orig: empty(), dir: empty() }
    }

    pub fn new(origin: &Vec3, direction: &Vec3) -> (r: Ray)
        ensures
            r.orig == *origin,
            r.dir == *direction,
    {
        Ray { orig: *origin, dir: *direction }
    }

    pub fn origin(&self) -> (r: &Vec3)
        ensures
            *r == self.orig,
    {
        &self.orig
    }

    pub fn direction(&self) -> (r: &Vec3)
        ensures
            *r == self.dir,
    {
        &self.dir
    }

    pub fn at(&self, t: i64) -> (p: Vec3)
        ensures
            p == ray_at_s(*self, t as int),
    {
        self.orig.add(&self.dir.mul_f(t))
    }
}

} // verus!
