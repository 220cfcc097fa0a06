//! Material scattering models: Lambertian diffuse, fuzzy metal and
//! dielectric glass.
//!
//! The scattering outcome that depends only on its inputs lives in
//! `scatter_s` / `scatter_from`, which take the random unit sample and
//! the reflectance draw as arguments and are specified exactly.  The
//! entry point `scatter` draws those values from the entropy provider
//! and hands them on.

use vstd::prelude::*;
use crate::fixed::{
    SCALE, fp_add_s, fp_sub_s, fp_mul_s, fp_div_s, fp_sqrt_s,
    fp_add, fp_sub, fp_mul, fp_div, fp_sqrt, fp_min,
};
use crate::vec3::{
    Vec3, vec_zero, vec_add_s, vec_mul_f_s, vec_neg_s, vec_unit_s, reflect_s, refract_s,
    near_zero_s, len_sqr_s, dot_s, unit_fallback, random_unit_vector,
};
use crate::ray::Ray;
use crate::hittable::HitRecord;
use crate::color::Color;
use crate::utils::Entropy;

verus! {

#[derive(Clone, Copy, Debug)]
pub enum Material {
    Lambertian(Color),
    Metal(Color, i64),
    Dielectric(i64),
}

/// A color whose channels all lie in `[0, 1]`.
pub open spec fn color_in_unit(c: Vec3) -> bool {
    &&& 0 <= c.x <= SCALE
    &&& 0 <= c.y <= SCALE
    &&& 0 <= c.z <= SCALE
}

/// The base reflectance at normal incidence: `((1 - ri) / (1 + ri))^2`.
pub open spec fn schlick_r0_s(ri: int) -> int
    recommends
        fp_add_s(SCALE as int, ri) != 0,
{
    let r0a = fp_div_s(fp_sub_s(SCALE as int, ri), fp_add_s(SCALE as int, ri));
    fp_mul_s(r0a, r0a)
}

/// The Schlick reflectance approximation
/// `r0 + (1 - r0) * (1 - cosine)^5`.
pub open spec fn reflectance_s(cosine: int, ri: int) -> int
    recommends
        fp_add_s(SCALE as int, ri) != 0,
{
    let r0 = schlick_r0_s(ri);
    let y = fp_sub_s(SCALE as int, cosine);
    let y2 = fp_mul_s(y, y);
    let y4 = fp_mul_s(y2, y2);
    let y5 = fp_mul_s(y4, y);
    fp_add_s(r0, fp_mul_s(fp_sub_s(SCALE as int, r0), y5))
}

/// At normal incidence (`cosine` exactly one) the Schlick reflectance
/// equals the base reflectance `r0`: the `(1 - cosine)^5` term
/// contributes nothing, whatever the refraction ratio.
pub proof fn lemma_reflectance_at_normal_incidence(ri: int)
    ensures
        reflectance_s(SCALE as int, ri) == schlick_r0_s(ri),
{
    let r0 = schlick_r0_s(ri);
    assert(fp_sub_s(SCALE as int, SCALE as int) == 0);
    assert(fp_mul_s(0, 0) == 0);
    assert(fp_mul_s(fp_sub_s(SCALE as int, r0), 0) == 0);
    assert(i64::MIN as int <= r0 <= i64::MAX as int);
    assert(fp_add_s(r0, 0) == r0);
}

/// The scattering outcome as a function of the material, the incoming
/// ray, the hit record, the random unit sample `uvec` and the random
/// reflectance draw `draw`: `None` when the ray is absorbed, otherwise
/// the attenuation and the scattered ray.
pub open spec fn scatter_s(m: Material, r_in: Ray, rec: HitRecord, uvec: Vec3, draw: int) -> Option<(Vec3, Ray)>
    recommends
        m.wf(),
        len_sqr_s(r_in.dir) > 0,
{
    match m {
        Material::Lambertian(albedo) => {
            let sd = vec_add_s(rec.normal, uvec);
            let dir = if near_zero_s(sd) {
                rec.normal
            } else {
                sd
            };
            Some((albedo, Ray { orig: rec.p, dir: dir }))
        },
        Material::Metal(albedo, fuzz) => {
            let refl = reflect_s(r_in.dir, rec.normal);
            if len_sqr_s(refl) == 0 {
                None
            } else {
                let dir = vec_add_s(vec_unit_s(refl), vec_mul_f_s(uvec, fuzz as int));
                if dot_s(dir, rec.normal) > 0 {
                    Some((albedo, Ray { orig: rec.p, dir: dir }))
                } else {
                    None
                }
            }
        },
        Material::Dielectric(index) => {
            let ri = if rec.front_face {
                fp_div_s(SCALE as int, index as int)
            } else {
                index as int
            };
            let unit_dir = vec_unit_s(r_in.dir);
            let cosine = if dot_s(vec_neg_s(unit_dir), rec.normal) <= SCALE as int {
                dot_s(vec_neg_s(unit_dir), rec.normal)
            } else {
                SCALE as int
            };
            let gap = fp_sub_s(SCALE as int, fp_mul_s(cosine, cosine));
            let sine = if gap > 0 {
                fp_sqrt_s(gap)
            } else {
                0
            };
            let cannot_refract = fp_mul_s(ri, sine) > SCALE as int;
            let dir = if cannot_refract || reflectance_s(cosine, ri) > draw {
                reflect_s(unit_dir, rec.normal)
            } else {
                refract_s(unit_dir, rec.normal, ri)
            };
            Some((Vec3 { x: SCALE, y: SCALE, z: SCALE }, Ray { orig: rec.p, dir: dir }))
        },
    }
}

/// The shape `scatter` guarantees of the unit sample it draws: for
/// the materials that use one, it is a normalized accepted rejection
/// sample or the fixed fallback direction.
pub open spec fn unit_sample_shape(m: Material, u: Vec3) -> bool {
    ||| m is Dielectric
    ||| u == unit_fallback()
    ||| exists|p: Vec3| 0 < len_sqr_s(p) <= SCALE && u == vec_unit_s(p)
}

/// What `scatter` establishes of its result `res` (the attenuation
/// and scattered ray on a scatter, `None` on absorption): `res` is
/// exactly what the deterministic core gives on some admissible unit
/// sample and reflectance draw.
pub open spec fn scatter_outcome(m: Material, r_in: Ray, rec: HitRecord, res: Option<(Vec3, Ray)>) -> bool {
    exists|uvec: Vec3, draw: int|
        #![trigger scatter_s(m, r_in, rec, uvec, draw)]
        {
            &&& 0 <= draw < SCALE
            &&& unit_sample_shape(m, uvec)
            &&& res == scatter_s(m, r_in, rec, uvec, draw)
        }
}

/// A well-formed material only ever attenuates: every scattered
/// outcome carries a color whose channels lie in `[0, 1]`.
pub proof fn lemma_scatter_attenuation_in_unit(m: Material, r_in: Ray, rec: HitRecord, uvec: Vec3,
    draw: int)
    requires
        m.wf(),
        scatter_s(m, r_in, rec, uvec, draw) is Some,
    ensures
        color_in_unit(scatter_s(m, r_in, rec, uvec, draw)->Some_0.0),
{
}

impl Material {
    pub open spec fn wf(&self) -> bool {
        match *self {
            Material::Lambertian(albedo) => color_in_unit(albedo),
            Material::Metal(albedo, fuzz) => color_in_unit(albedo) && 0 <= fuzz <= SCALE,
            Material::Dielectric(index) => index > 0,
        }
    }

    /// The deterministic scattering core: everything after the random
    /// draws, exact for every value of `uvec` and `draw`.
    pub fn scatter_from(&self, r_in: &Ray, rec: &HitRecord, uvec: Vec3, draw: i64,
                        attenuation: &mut Vec3, scattered: &mut Ray) -> (b: bool)
        requires
            self.wf(),
            len_sqr_s(r_in.dir) > 0,
        ensures
            match scatter_s(*self, *r_in, *rec, uvec, draw as int) {
                Some(out) => b && *final(attenuation) == out.0 && *final(scattered) == out.1,
                None => !b,
            },
    {
        match *self {
            Material::Lambertian(albedo) => {
                let sd: Vec3 = rec.normal.add(&uvec);
                let dir: Vec3 = if sd.near_zero() {
                    rec.normal
                } else {
                    sd
                };
                *scattered = Ray::new(&rec.p, &dir);
                *attenuation = albedo;
                true
            },
            Material::Metal(albedo, fuzz) => {
                let refl: Vec3 = r_in.direction().reflect(&rec.normal);
                if refl.len_sqr() == 0 {
                    return false;
                }
                let dir: Vec3 = refl.unit().add(&uvec.mul_f(fuzz));
                *scattered = Ray::new(&rec.p, &dir);
                *attenuation = albedo;
                dir.dot(&rec.normal) > 0
            },
            Material::Dielectric(index) => {
                *attenuation = Vec3 { x: SCALE, y: SCALE, z: SCALE };
                let ri: i64 = if rec.front_face {
                    fp_div(SCALE, index)
                } else {
                    index
                };
                let unit_dir: Vec3 = r_in.direction().unit();
                let cosine: i64 = fp_min(unit_dir.neg().dot(&rec.normal), SCALE);
                let gap: i64 = fp_sub(SCALE, fp_mul(cosine, cosine));
                let sine: i64 = if gap > 0 {
                    fp_sqrt(gap)
                } else {
                    0
                };
                let cannot_refract: bool = fp_mul(ri, sine) > SCALE;
                let dir: Vec3 = if cannot_refract || Self::reflectance(cosine, ri) > draw {
                    unit_dir.reflect(&rec.normal)
                } else {
                    unit_dir.refract(&rec.normal, ri)
                };
                *scattered = Ray::new(&rec.p, &dir);
                true
            },
        }
    }

    /// Scatters the incoming ray, drawing the random inputs from the
    /// entropy provider and handing them to the deterministic core.
    pub fn scatter<E: Entropy>(&self, r_in: &Ray, rec: &HitRecord, attenuation: &mut Vec3,
                               scattered: &mut Ray, e: &mut E) -> (b: bool)
        requires
            self.wf(),
            len_sqr_s(r_in.dir) > 0,
        ensures
            b ==> scatter_outcome(*self, *r_in, *rec, Some(
                (*final(attenuation), *final(scattered)))),
            !b ==> scatter_outcome(*self, *r_in, *rec, None),
    {
        match *self {
            Material::Dielectric(_) => {
                let draw: i64 = e.next_unit();
                let b: bool = self.scatter_from(r_in, rec, crate::vec3::empty(), draw, attenuation,
                    scattered);
                proof {
                    let res = if b {
                        Some((*attenuation, *scattered))
                    } else {
                        None
                    };
                    assert(unit_sample_shape(*self, vec_zero()));
                    assert(res == scatter_s(*self, *r_in, *rec, vec_zero(), draw as int));
                }
                b
            },
            _ => {
                let uvec: Vec3 = random_unit_vector(e);
                let b: bool = self.scatter_from(r_in, rec, uvec, 0, attenuation, scattered);
                proof {
                    let res = if b {
                        Some((*attenuation, *scattered))
                    } else {
                        None
                    };
                    assert(unit_sample_shape(*self, uvec));
                    assert(res == scatter_s(*self, *r_in, *rec, uvec, 0));
                }
                b
            },
        }
    }

    fn reflectance(cosine: i64, ri: i64) -> (r: i64)
        requires
            ri >= 0,
        ensures
            r as int == reflectance_s(cosine as int, ri as int),
    {
        let r0a: i64 = fp_div(fp_sub(SCALE, ri), fp_add(SCALE, ri));
        let r0: i64 = fp_mul(r0a, r0a);
        let y: i64 = fp_sub(SCALE, cosine);
        let y2: i64 = fp_mul(y, y);
        let y4: i64 = fp_mul(y2, y2);
        let y5: i64 = fp_mul(y4, y);
        fp_add(r0, fp_mul(fp_sub(SCALE, r0), y5))
    }
}

} // verus!
