//! Spheres: the one geometric primitive.
//!
//! The intersection uses the half-`b` quadratic form: with
//! `b = dot(d, oc)` the roots are `(b ± sqrt(b² − a·c)) / a`, the
//! smaller tried first.  Degenerate geometry — a zero radius or a
//! direction whose squared length rounds to zero — is treated as a
//! miss rather than an error.

use vstd::prelude::*;
use vstd::arithmetic::div_mod::{lemma_fundamental_div_mod, lemma_mod_multiples_basic,
    lemma_div_multiples_vanish};
use vstd::arithmetic::mul::lemma_mul_is_commutative;
use crate::fixed::{SCALE, fp_sub_s, fp_mul_s, fp_div_s, fp_add_s, fp_sqrt_s, fp_sub, fp_mul,
    fp_div, fp_add, fp_sqrt, fp_max, tdiv, lemma_tdiv_exact, lemma_fp_div_scale_cancel,
    lemma_fp_mul_scale_cancel, lemma_fp_mul_quarter_exact, lemma_isqrt_unique};
use crate::vec3::{Vec3, v3, vec_sub_s, vec_div_f_s, dot_s, len_sqr_s};
use crate::ray::{Ray, ray_at_s};
use crate::interval::{Span, Interval};
use crate::hittable::{HitRecord, Hittable, set_face_normal_s};
use crate::material::Material;

verus! {

pub struct Sphere {
    pub center: Vec3,
    pub radius: i64,
    pub mat: Material,
}

/// The record of a sphere hit at parameter `root`: the point reached,
/// and the outward normal `(point − center) / radius` oriented
/// against the incoming ray.
pub open spec fn sphere_hit_record_s(s: Sphere, r: Ray, root: int) -> HitRecord
    recommends
        s.radius > 0,
{
    let p = ray_at_s(r, root);
    let outward = vec_div_f_s(vec_sub_s(p, s.center), s.radius as int);
    set_face_normal_s(HitRecord { p: p, normal: outward, t: root as i64, front_face: false }, r, outward)
}

/// The sphere intersection model over the fixed-point quadratic.
pub open spec fn sphere_hit_s(s: Sphere, r: Ray, t0: int, t1: int) -> Option<(HitRecord, Material)> {
    let oc = vec_sub_s(s.center, r.orig);
    let a = dot_s(r.dir, r.dir);
    let b = dot_s(r.dir, oc);
    let c = fp_sub_s(dot_s(oc, oc), fp_mul_s(s.radius as int, s.radius as int));
    let disc = fp_sub_s(fp_mul_s(b, b), fp_mul_s(a, c));
    if s.radius <= 0 || a <= 0 || disc < 0 {
        None
    } else {
        let sqrtd = fp_sqrt_s(disc);
        let root1 = fp_div_s(fp_sub_s(b, sqrtd), a);
        let root2 = fp_div_s(fp_add_s(b, sqrtd), a);
        if t0 < root1 && root1 < t1 {
            Some((sphere_hit_record_s(s, r, root1), s.mat))
        } else if t0 < root2 && root2 < t1 {
            Some((sphere_hit_record_s(s, r, root2), s.mat))
        } else {
            None
        }
    }
}

impl Sphere {
    /// The radius is clamped to be non-negative at construction.
    pub fn new(center: Vec3, radius: i64, mat: Material) -> (s: Sphere)
        ensures
            s.center == center,
            s.radius == if radius >= 0 { radius } else { 0 },
            s.mat == mat,
    {
        Sphere { center: center, radius: fp_max(radius, 0), mat: mat }
    }
}

impl Hittable for Sphere {
    open spec fn wf(&self) -> bool {
        self.mat.wf() && self.radius >= 0
    }

    open spec fn hit_spec(&self, r: Ray, t0: int, t1: int) -> Option<(HitRecord, Material)> {
        sphere_hit_s(*self, r, t0, t1)
    }

    proof fn hit_spec_facts(&self, r: Ray, t0: int, t1: int) {
        if self.hit_spec(r, t0, t1) is Some {
            assert(dot_s(r.dir, r.dir) > 0);
        }
    }

    fn hit(&self, r: &Ray, ray_t: Span, rec: &mut HitRecord) -> (res: Option<Material>) {
        let oc: Vec3 = self.center.sub(r.origin());
        let a: i64 = r.direction().dot(r.direction());
        let b: i64 = r.direction().dot(&oc);
        let c: i64 = fp_sub(oc.dot(&oc), fp_mul(self.radius, self.radius));

        let discriminant: i64 = fp_sub(fp_mul(b, b), fp_mul(a, c));
        if self.radius <= 0 || a <= 0 || discriminant < 0 {
            return None;
        }

        let sqrtd: i64 = fp_sqrt(discriminant);

        let mut root: i64 = fp_div(fp_sub(b, sqrtd), a);
        if !ray_t.surrounds(root) {
            root = fp_div(fp_add(b, sqrtd), a);
            if !ray_t.surrounds(root) {
                return None;
            }
        }

        rec.t = root;
        rec.p = r.at(rec.t);

        let outward: Vec3 = rec.p.sub(&self.center).div_f(self.radius);
        rec.set_face_normal(r, &outward);

        Some(self.mat)
    }
}

/// The ray used by the two head-on laws below: from the origin,
/// straight down the negative `z` axis, with an exactly unit
/// direction.
pub open spec fn axial_ray() -> Ray {
    Ray { orig: Vec3 { x: 0, y: 0, z: 0 }, dir: Vec3 { x: 0, y: 0, z: -65536i64 } }
}

/// Hit correctness, head on: a ray aimed at a sphere's center from
/// distance `d` outside it hits at parameter `d - r` exactly, and the
/// returned normal is the unit vector from center to hit point.
/// Stated for distances and radii that are multiples of 1/256, on
/// which the fixed-point quadratic is exact.
pub proof fn lemma_head_on_sphere_hit(d: int, r: int, t0: int, t1: int, m: Material)
    requires
        d % 256 == 0,
        r % 256 == 0,
        0 < r < d <= 0x4000000000,
        i64::MIN as int <= t0,
        t1 <= i64::MAX as int,
        t0 < d - r < t1,
    ensures
        sphere_hit_s(Sphere { center: v3(0, 0, -d), radius: r as i64, mat: m }, axial_ray(), t0, t1)
            == Some((HitRecord {
                p: v3(0, 0, -(d - r)),
                normal: Vec3 { x: 0, y: 0, z: 65536 },
                t: (d - r) as i64,
                front_face: true,
            }, m)),
{
    let sc = SCALE as int;
    let sp = Sphere { center: v3(0, 0, -d), radius: r as i64, mat: m };
    let ray = axial_ray();
    let oc = vec_sub_s(sp.center, ray.orig);
    assert(oc == v3(0, 0, -d));

    // ground products of the axial direction's components
    assert(0 * 0 == 0 && (-65536) * (-65536) == 0x100000000 && (-65536) * 65536
        == -0x100000000) by (nonlinear_arith);

    // a = dot(dir, dir) is exactly one
    let a = dot_s(ray.dir, ray.dir);
    assert(a == sc);

    // b = dot(dir, oc) is exactly d
    assert((-sc) * (-d) == sc * d) by (nonlinear_arith);
    lemma_mod_multiples_basic(d, sc);
    lemma_mul_is_commutative(d, sc);
    lemma_tdiv_exact(sc * d, sc);
    lemma_div_multiples_vanish(d, sc);
    assert(fp_mul_s(-sc, -d) == d);
    let b = dot_s(ray.dir, oc);
    assert(b == d);

    // dd = d^2 and rr = r^2, scaled down exactly
    assert((-d) * (-d) == d * d) by (nonlinear_arith);
    lemma_fp_mul_quarter_exact(d, d);
    lemma_fp_mul_quarter_exact(r, r);
    let kd = d / 256;
    let kr = r / 256;
    lemma_fundamental_div_mod(d, 256);
    lemma_fundamental_div_mod(r, 256);
    assert(0 < kr < kd <= 0x40000000) by (nonlinear_arith)
        requires
            d == 256 * kd,
            r == 256 * kr,
            0 < r < d <= 0x4000000000,
    ;
    assert(0 < kr * kr <= kd * kd <= 0x40000000 * 0x40000000) by (nonlinear_arith)
        requires
            0 < kr <= kd <= 0x40000000,
    ;
    let dd = kd * kd;
    let rr = kr * kr;
    assert(fp_mul_s(-d, -d) == dd);
    assert(fp_mul_s(d, d) == dd);
    assert(fp_mul_s(r, r) == rr);
    assert(dot_s(oc, oc) == dd);

    // c = d^2 - r^2, still exact
    let c = fp_sub_s(dot_s(oc, oc), fp_mul_s(sp.radius as int, sp.radius as int));
    assert(c == dd - rr);

    // a * c cancels the unit factor, so the discriminant is r^2
    lemma_fp_mul_scale_cancel(c);
    assert(fp_mul_s(a, c) == dd - rr);
    let disc = fp_sub_s(fp_mul_s(b, b), fp_mul_s(a, c));
    assert(disc == rr);

    // sqrt(r^2) = r
    assert(rr * sc == r * r) by (nonlinear_arith)
        requires
            r == 256 * kr,
            rr == kr * kr,
            sc == 65536,
    ;
    assert((r * r) as nat == (rr * sc) as nat);
    assert(r * r <= (r + 1) * (r + 1)) by (nonlinear_arith)
        requires
            r >= 0,
    ;
    assert((r * r) < (r + 1) * (r + 1)) by (nonlinear_arith)
        requires
            r >= 0,
    ;
    lemma_isqrt_unique((r * r) as nat, r as nat);
    assert(fp_sqrt_s(disc) == r);

    // the smaller root is d - r, inside the span
    let root1 = fp_div_s(fp_sub_s(b, fp_sqrt_s(disc)), a);
    lemma_fp_div_scale_cancel(d - r);
    assert(root1 == d - r);
    assert(t0 < root1 < t1);

    // the hit record: point, outward normal, orientation
    let rec = sphere_hit_record_s(sp, ray, root1);
    assert(0 * (d - r) == 0) by (nonlinear_arith);
    assert((-sc) * (d - r) == -(sc * (d - r))) by (nonlinear_arith);
    lemma_mod_multiples_basic(d - r, sc);
    lemma_mul_is_commutative(d - r, sc);
    lemma_tdiv_exact(-(sc * (d - r)), sc);
    assert((-(sc * (d - r))) % sc == 0) by {
        lemma_mod_multiples_basic(-(d - r), sc);
        assert((-(d - r)) * sc == -(sc * (d - r))) by (nonlinear_arith);
    }
    lemma_div_multiples_vanish(-(d - r), sc);
    assert(sc * -(d - r) == -(sc * (d - r))) by (nonlinear_arith);
    assert(fp_mul_s(-sc, d - r) == -(d - r));
    assert(rec.p == v3(0, 0, -(d - r)));

    // outward = (p - center) / r = (0, 0, 1)
    let po = vec_sub_s(rec.p, sp.center);
    assert(po == v3(0, 0, r));
    assert(0 * sc == 0) by (nonlinear_arith);
    lemma_mod_multiples_basic(0, r);
    assert(0int % r == 0);
    lemma_tdiv_exact(0, r);
    lemma_mod_multiples_basic(sc, r);
    lemma_mul_is_commutative(sc, r);
    lemma_tdiv_exact(r * sc, r);
    lemma_div_multiples_vanish(sc, r);
    assert(fp_div_s(r, r) == sc);
    assert(fp_div_s(0, r) == 0) by {
        assert(tdiv(0 * sc, r) == 0);
    }

    // front face: dir points against the outward normal
    assert((-sc) * sc == -(sc * sc)) by (nonlinear_arith);
    lemma_mod_multiples_basic(-sc, sc);
    lemma_tdiv_exact((-sc) * sc, sc);
    lemma_div_multiples_vanish(-sc, sc);
    assert(sc * -sc == (-sc) * sc) by (nonlinear_arith);
    assert(fp_mul_s(-sc, sc) == -sc);
    assert(rec.front_face);
    assert(rec.normal == Vec3 { x: 0i64, y: 0i64, z: 65536i64 });
    assert(rec.t == (d - r) as i64);
}

/// Miss correctness: a head-on ray whose closest approach to the
/// sphere center is `q`, farther out than the radius, returns no hit
/// — the discriminant is negative.  Stated on the same exactly
/// representable grid as the hit law.
pub proof fn lemma_wide_sphere_miss(q: int, d: int, r: int, t0: int, t1: int, m: Material)
    requires
        q % 256 == 0,
        d % 256 == 0,
        r % 256 == 0,
        0 <= r < q <= 0x4000000000,
        0 <= d <= 0x4000000000,
    ensures
        sphere_hit_s(Sphere { center: v3(q, 0, -d), radius: r as i64, mat: m }, axial_ray(), t0, t1)
            is None,
{
    let sc = SCALE as int;
    let sp = Sphere { center: v3(q, 0, -d), radius: r as i64, mat: m };
    let ray = axial_ray();
    assert(0 * 0 == 0 && (-65536) * (-65536) == 0x100000000) by (nonlinear_arith);
    if r == 0 {
    } else {
        let oc = vec_sub_s(sp.center, ray.orig);
        assert(oc == v3(q, 0, -d));

        // b = d, as in the hit law
        assert((-sc) * (-d) == sc * d) by (nonlinear_arith);
        lemma_mod_multiples_basic(d, sc);
        lemma_mul_is_commutative(d, sc);
        lemma_tdiv_exact(sc * d, sc);
        lemma_div_multiples_vanish(d, sc);
        assert(fp_mul_s(-sc, -d) == d);
        assert(fp_mul_s(0, q) == 0) by {
            assert(0 * q == 0) by (nonlinear_arith);
        }
        assert(dot_s(ray.dir, oc) == d);

        // the three squares, all exact
        assert((-d) * (-d) == d * d) by (nonlinear_arith);
        lemma_fp_mul_quarter_exact(q, q);
        lemma_fp_mul_quarter_exact(d, d);
        lemma_fp_mul_quarter_exact(r, r);
        let kq = q / 256;
        let kd = d / 256;
        let kr = r / 256;
        lemma_fundamental_div_mod(q, 256);
        lemma_fundamental_div_mod(d, 256);
        lemma_fundamental_div_mod(r, 256);
        assert(0 < kq <= 0x40000000 && 0 <= kd <= 0x40000000 && 0 <= kr < kq) by (nonlinear_arith)
            requires
                q == 256 * kq,
                d == 256 * kd,
                r == 256 * kr,
                0 < r < q <= 0x4000000000,
                0 <= d <= 0x4000000000,
        ;
        assert(kq * kq <= 0x40000000 * 0x40000000 && kd * kd <= 0x40000000 * 0x40000000
            && 0 <= kr * kr && kr * kr < kq * kq && 0 <= kd * kd) by (nonlinear_arith)
            requires
                0 < kq <= 0x40000000,
                0 <= kd <= 0x40000000,
                0 <= kr < kq,
        ;
        let qq = kq * kq;
        let dd = kd * kd;
        let rr = kr * kr;
        assert(fp_mul_s(q, q) == qq);
        assert(fp_mul_s(-d, -d) == dd);
        assert(fp_mul_s(d, d) == dd);
        assert(fp_mul_s(r, r) == rr);
        assert(dot_s(oc, oc) == qq + dd);

        // c = q^2 + d^2 - r^2; the discriminant is r^2 - q^2 < 0
        let c = fp_sub_s(dot_s(oc, oc), fp_mul_s(sp.radius as int, sp.radius as int));
        assert(c == qq + dd - rr);
        lemma_fp_mul_scale_cancel(c);
        let disc = fp_sub_s(fp_mul_s(d, d), fp_mul_s(dot_s(ray.dir, ray.dir), c));
        assert(dot_s(ray.dir, ray.dir) == sc);
        assert(disc == rr - qq);
        assert(disc < 0);
    }
}

} // verus!
