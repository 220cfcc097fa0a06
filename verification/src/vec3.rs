//! Three-component fixed-point vectors.
//!
//! A `Vec3` serves as point, direction and color alike, as callers
//! decide.  Every operation is specified exactly by a spec function
//! over the fixed-point model of `crate::fixed`.

use vstd::prelude::*;
use crate::fixed::{
    SCALE, FP_TWO, fp_add_s, fp_sub_s, fp_neg_s, fp_mul_s, fp_div_s, fp_sqrt_s, isqrt_s,
    fp_add, fp_sub, fp_neg, fp_mul, fp_div, fp_sqrt, fp_min,
    lemma_isqrt_bounds,
};
use crate::utils::Entropy;

verus! {

/// How many rejected draws a rejection sampler accepts before it
/// falls back to a fixed safe value.
pub const MAX_DRAW_ATTEMPTS: usize = 64;

#[derive(Clone, Copy, Debug, PartialEq, Eq, Structural)]
pub struct Vec3 {
    pub x: i64,
    pub y: i64,
    pub z: i64,
}

/// Builds a `Vec3` from model values; meaningful when each lies in
/// the `i64` range, which every saturated result does.
pub open spec fn v3(x: int, y: int, z: int) -> Vec3 {
    Vec3 { x: x as i64, y: y as i64, z: z as i64 }
}

pub open spec fn vec_zero() -> Vec3 {
    Vec3 { x: 0, y: 0, z: 0 }
}

pub open spec fn vec_add_s(a: Vec3, b: Vec3) -> Vec3 {
    v3(
        fp_add_s(a.x as int, b.x as int),
        fp_add_s(a.y as int, b.y as int),
        fp_add_s(a.z as int, b.z as int),
    )
}

pub open spec fn vec_sub_s(a: Vec3, b: Vec3) -> Vec3 {
    v3(
        fp_sub_s(a.x as int, b.x as int),
        fp_sub_s(a.y as int, b.y as int),
        fp_sub_s(a.z as int, b.z as int),
    )
}

pub open spec fn vec_neg_s(a: Vec3) -> Vec3 {
    v3(fp_neg_s(a.x as int), fp_neg_s(a.y as int), fp_neg_s(a.z as int))
}

/// Component-wise product.
pub open spec fn vec_mul_s(a: Vec3, b: Vec3) -> Vec3 {
    v3(
        fp_mul_s(a.x as int, b.x as int),
        fp_mul_s(a.y as int, b.y as int),
        fp_mul_s(a.z as int, b.z as int),
    )
}

pub open spec fn vec_mul_f_s(a: Vec3, s: int) -> Vec3 {
    v3(fp_mul_s(a.x as int, s), fp_mul_s(a.y as int, s), fp_mul_s(a.z as int, s))
}

pub open spec fn vec_div_f_s(a: Vec3, s: int) -> Vec3
    recommends
        s != 0,
{
    v3(fp_div_s(a.x as int, s), fp_div_s(a.y as int, s), fp_div_s(a.z as int, s))
}

pub open spec fn dot_s(a: Vec3, b: Vec3) -> int {
    fp_add_s(
        fp_add_s(fp_mul_s(a.x as int, b.x as int), fp_mul_s(a.y as int, b.y as int)),
        fp_mul_s(a.z as int, b.z as int),
    )
}

pub open spec fn len_sqr_s(a: Vec3) -> int {
    dot_s(a, a)
}

pub open spec fn length_s(a: Vec3) -> int {
    fp_sqrt_s(len_sqr_s(a))
}

pub open spec fn cross_s(a: Vec3, b: Vec3) -> Vec3 {
    v3(
        fp_sub_s(fp_mul_s(a.y as int, b.z as int), fp_mul_s(a.z as int, b.y as int)),
        fp_sub_s(fp_mul_s(a.z as int, b.x as int), fp_mul_s(a.x as int, b.z as int)),
        fp_sub_s(fp_mul_s(a.x as int, b.y as int), fp_mul_s(a.y as int, b.x as int)),
    )
}

pub open spec fn vec_unit_s(a: Vec3) -> Vec3
    recommends
        len_sqr_s(a) > 0,
{
    vec_div_f_s(a, length_s(a))
}

/// The near-zero test: the customary threshold of 1e-8 lies below
/// one fixed-point quantum, so only the exact zero vector qualifies.
pub open spec fn near_zero_s(a: Vec3) -> bool {
    a.x == 0 && a.y == 0 && a.z == 0
}

pub open spec fn reflect_s(v: Vec3, n: Vec3) -> Vec3 {
    vec_sub_s(v, vec_mul_f_s(n, fp_mul_s(FP_TWO as int, dot_s(v, n))))
}

pub open spec fn refract_s(v: Vec3, n: Vec3, etai_over_etat: int) -> Vec3 {
    let cosine = if dot_s(vec_neg_s(v), n) <= SCALE as int {
        dot_s(vec_neg_s(v), n)
    } else {
        SCALE as int
    };
    let r_perp = vec_mul_f_s(vec_add_s(v, vec_mul_f_s(n, cosine)), etai_over_etat);
    let gap = fp_sub_s(SCALE as int, len_sqr_s(r_perp));
    let mag = if gap < 0 { fp_neg_s(gap) } else { gap };
    let r_parallel = vec_mul_f_s(n, fp_neg_s(fp_sqrt_s(mag)));
    vec_add_s(r_perp, r_parallel)
}

/// A product of a value with itself never saturates below zero.
pub proof fn lemma_square_nonneg(a: int)
    ensures
        fp_mul_s(a, a) >= 0,
{
    assert(a * a >= 0) by (nonlinear_arith);
}

pub proof fn lemma_len_sqr_nonneg(a: Vec3)
    ensures
        len_sqr_s(a) >= 0,
        len_sqr_s(a) <= i64::MAX as int,
{
    lemma_square_nonneg(a.x as int);
    lemma_square_nonneg(a.y as int);
    lemma_square_nonneg(a.z as int);
}

pub proof fn lemma_length_pos(a: Vec3)
    requires
        len_sqr_s(a) > 0,
    ensures
        length_s(a) >= 256,
{
    lemma_len_sqr_nonneg(a);
    let s = (len_sqr_s(a) * (SCALE as int)) as nat;
    lemma_isqrt_bounds(s);
    assert(s >= 65536);
    if isqrt_s(s) < 256 {
        assert((isqrt_s(s) + 1) * (isqrt_s(s) + 1) <= 65536) by (nonlinear_arith)
            requires
                isqrt_s(s) + 1 <= 256,
        ;
        assert(false);
    }
}

impl Vec3 {
    pub fn len_sqr(&self) -> (r: i64)
        ensures
            r as int == len_sqr_s(*self),
            r >= 0,
    {
        proof {
            lemma_len_sqr_nonneg(*self);
        }
        self.dot(self)
    }

    pub fn length(&self) -> (r: i64)
        ensures
            r as int == length_s(*self),
            r >= 0,
    {
        proof {
            lemma_len_sqr_nonneg(*self);
        }
        let ls: i64 = self.len_sqr();
        fp_sqrt(ls)
    }

    pub fn near_zero(&self) -> (r: bool)
        ensures
            r == near_zero_s(*self),
    {
        self.x == 0 && self.y == 0 && self.z == 0
    }

    pub fn dot(&self, v: &Vec3) -> (r: i64)
        ensures
            r as int == dot_s(*self, *v),
    {
        fp_add(fp_add(fp_mul(self.x, v.x), fp_mul(self.y, v.y)), fp_mul(self.z, v.z))
    }

    pub fn cross(&self, v: &Vec3) -> (r: Vec3)
        ensures
            r == cross_s(*self, *v),
    {
        Vec3 {
            x: fp_sub(fp_mul(self.y, v.z), fp_mul(self.z, v.y)),
            y: fp_sub(fp_mul(self.z, v.x), fp_mul(self.x, v.z)),
            z: fp_sub(fp_mul(self.x, v.y), fp_mul(self.y, v.x)),
        }
    }

    pub fn unit(&self) -> (r: Vec3)
        requires
            len_sqr_s(*self) > 0,
        ensures
            r == vec_unit_s(*self),
    {
        proof {
            lemma_length_pos(*self);
        }
        let l: i64 = self.length();
        self.div_f(l)
    }

    pub fn reflect(&self, n: &Vec3) -> (r: Vec3)
        ensures
            r == reflect_s(*self, *n),
    {
        self.sub(&n.mul_f(fp_mul(FP_TWO, self.dot(n))))
    }

    pub fn refract(&self, n: &Vec3, etai_over_etat: i64) -> (r: Vec3)
        ensures
            r == refract_s(*self, *n, etai_over_etat as int),
    {
        let cosine: i64 = fp_min(self.neg().dot(n), SCALE);
        let r_perp: Vec3 = self.add(&n.mul_f(cosine)).mul_f(etai_over_etat);
        let gap: i64 = fp_sub(SCALE, r_perp.len_sqr());
        let mag: i64 = if gap < 0 {
            fp_neg(gap)
        } else {
            gap
        };
        let r_parallel: Vec3 = n.mul_f(fp_neg(fp_sqrt(mag)));
        r_perp.add(&r_parallel)
    }

    pub fn neg(&self) -> (r: Vec3)
        ensures
            r == vec_neg_s(*self),
    {
        Vec3 { x: fp_neg(self.x), y: fp_neg(self.y), z: fp_neg(self.z) }
    }

    pub fn add_assign(&mut self, rhs: Vec3)
        ensures
            *final(self) == vec_add_s(*old(self), rhs),
    {
        self.x = fp_add(self.x, rhs.x);
        self.y = fp_add(self.y, rhs.y);
        self.z = fp_add(self.z, rhs.z);
    }

    pub fn add(&self, rhs: &Vec3) -> (r: Vec3)
        ensures
            r == vec_add_s(*self, *rhs),
    {
        Vec3 { x: fp_add(self.x, rhs.x), y: fp_add(self.y, rhs.y), z: fp_add(self.z, rhs.z) }
    }

    pub fn sub(&self, rhs: &Vec3) -> (r: Vec3)
        ensures
            r == vec_sub_s(*self, *rhs),
    {
        Vec3 { x: fp_sub(self.x, rhs.x), y: fp_sub(self.y, rhs.y), z: fp_sub(self.z, rhs.z) }
    }

    pub fn mul(&self, rhs: &Vec3) -> (r: Vec3)
        ensures
            r == vec_mul_s(*self, *rhs),
    {
        Vec3 { x: fp_mul(self.x, rhs.x), y: fp_mul(self.y, rhs.y), z: fp_mul(self.z, rhs.z) }
    }

    pub fn mul_f(&self, rhs: i64) -> (r: Vec3)
        ensures
            r == vec_mul_f_s(*self, rhs as int),
    {
        Vec3 { x: fp_mul(self.x, rhs), y: fp_mul(self.y, rhs), z: fp_mul(self.z, rhs) }
    }

    pub fn div_f(&self, rhs: i64) -> (r: Vec3)
        requires
            rhs != 0,
        ensures
            r == vec_div_f_s(*self, rhs as int),
    {
        Vec3 { x: fp_div(self.x, rhs), y: fp_div(self.y, rhs), z: fp_div(self.z, rhs) }
    }
}

pub fn empty() -> (r: Vec3)
    ensures
        r == vec_zero(),
{
    Vec3 { x: 0, y: 0, z: 0 }
}

pub fn random<E: Entropy>(e: &mut E) -> (r: Vec3)
    ensures
        0 <= r.x < SCALE,
        0 <= r.y < SCALE,
        0 <= r.z < SCALE,
{
    let x: i64 = e.next_unit();
    let y: i64 = e.next_unit();
    let z: i64 = e.next_unit();
    Vec3 { x, y, z }
}

pub fn random_min_max<E: Entropy>(min: i64, max: i64, e: &mut E) -> (r: Vec3)
    ensures
        exists|u: int| 0 <= u < SCALE && r.x as int == crate::utils::lerp_s(min as int, max as int, u),
        exists|u: int| 0 <= u < SCALE && r.y as int == crate::utils::lerp_s(min as int, max as int, u),
        exists|u: int| 0 <= u < SCALE && r.z as int == crate::utils::lerp_s(min as int, max as int, u),
{
    let x: i64 = crate::utils::random_min_max(min, max, e);
    let y: i64 = crate::utils::random_min_max(min, max, e);
    let z: i64 = crate::utils::random_min_max(min, max, e);
    Vec3 { x, y, z }
}

/// The fallback direction a rejection sampler hands back when every
/// draw was rejected.
pub open spec fn unit_fallback() -> Vec3 {
    Vec3 { x: 0, y: 0, z: SCALE }
}

/// A direction of roughly unit length: an accepted rejection sample,
/// normalized, or the fixed fallback direction.
pub fn random_unit_vector<E: Entropy>(e: &mut E) -> (r: Vec3)
    ensures
        r == unit_fallback() || exists|p: Vec3| 0 < len_sqr_s(p) <= SCALE && r == vec_unit_s(p),
{
    let mut k: usize = 0;
    while k < MAX_DRAW_ATTEMPTS
        invariant
            true,
        decreases MAX_DRAW_ATTEMPTS - k,
    {
        let p: Vec3 = random_min_max(-SCALE, SCALE, e);
        let ls: i64 = p.len_sqr();
        if 0 < ls && ls <= SCALE {
            return p.unit();
        }
        k = k + 1;
    }
    Vec3 { x: 0, y: 0, z: SCALE }
}

/// A point of the unit disk in the `z = 0` plane: an accepted
/// rejection sample, or the disk's center.
pub fn random_in_unit_disk<E: Entropy>(e: &mut E) -> (r: Vec3)
    ensures
        r.z == 0,
        len_sqr_s(r) < SCALE,
{
    let mut k: usize = 0;
    while k < MAX_DRAW_ATTEMPTS
        invariant
            true,
        decreases MAX_DRAW_ATTEMPTS - k,
    {
        let p: Vec3 = Vec3 {
            x: crate::utils::random_min_max(-SCALE, SCALE, e),
            y: crate::utils::random_min_max(-SCALE, SCALE, e),
            z: 0,
        };
        if p.len_sqr() < SCALE {
            return p;
        }
        k = k + 1;
    }
    proof {
        lemma_len_sqr_nonneg(vec_zero());
    }
    Vec3 { x: 0, y: 0, z: 0 }
}

} // verus!
