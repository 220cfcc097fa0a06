//! The camera model, the recursive path integrator and the render
//! driver.
//!
//! The configuration is derived once, by exact fixed-point formulas
//! mirrored in `render_config_s`.  Ray generation jitters the pixel
//! center and, with a positive defocus angle, samples the lens disk.
//! The integrator walks bounces down an explicit depth budget and
//! returns black once it is spent, whatever the scene holds.

use vstd::prelude::*;
use vstd::arithmetic::div_mod::{lemma_fundamental_div_mod, lemma_mod_bound, lemma_div_is_ordered};
use vstd::arithmetic::mul::lemma_mul_is_commutative;
use crate::fixed::{
    SCALE, FP_HALF, FP_TWO, fp_add_s, fp_sub_s, fp_mul_s, fp_div_s, fp_from_int_s, fp_to_int_s,
    fp_add, fp_sub, fp_mul, fp_div, fp_from_int, fp_to_int, fp_max, lemma_fp_mul_scale_cancel,
};
use crate::vec3::{
    Vec3, vec_zero, vec_add_s, vec_sub_s, vec_neg_s, vec_mul_s, vec_mul_f_s, vec_div_f_s,
    vec_unit_s, cross_s, len_sqr_s, empty, random_in_unit_disk,
};
use crate::ray::Ray;
use crate::interval::Span;
use crate::hittable::{HitRecord, Hittable};
use crate::material::{Material, scatter_outcome, color_in_unit};
use crate::utils::{Entropy, random_float, degress_to_radians, deg_to_rad_s, fp_tan, fp_tan_s};
use crate::color::{get_pixel, pixel_byte_s};
use crate::schedule::{CHUNK_SIZE, chunk_bounds, chunk_count_s, chunk_range_s, lemma_chunk_in_bounds};

verus! {

/// The lower ray-parameter bound of every scene query: about 0.001,
/// keeping a bounce from immediately hitting its own exit point.
pub const T_MIN: i64 = 66;

/// The green channel of the horizon color, 0.7 in fixed-point
/// encoding.
pub const HORIZON_GREEN: i64 = 45875;

pub struct Render {
    pub image_width: i64,
    pub image_height: i64,
    pub max_depth: i64,
    pub samples_per_pixel: i64,
    pub pixel_sample_scale: i64,
    pub camera_center: Vec3,
    pub pixel00_loc: Vec3,
    pub pixel_del_u: Vec3,
    pub pixel_del_v: Vec3,
    pub defocus_angle: i64,
    pub defocus_disk_u: Vec3,
    pub defocus_disk_v: Vec3,
}

/// The configuration derived from the camera parameters; every field
/// follows by the fixed-point formulas below.
pub open spec fn render_config_s(aspect_ratio: int, image_width: int, samples_per_pixel: int,
    max_depth: int, vfov: int, near_clip: Vec3, far_clip: Vec3, vup: Vec3, defocus_angle: int,
    focus_dist: int) -> Render {
    let ihr = fp_to_int_s(fp_div_s(fp_from_int_s(image_width), aspect_ratio));
    let image_height = if ihr >= 1 {
        ihr
    } else {
        1
    };
    let pixel_sample_scale = fp_div_s(SCALE as int, fp_from_int_s(samples_per_pixel));
    let h = fp_tan_s(fp_div_s(deg_to_rad_s(vfov), FP_TWO as int));
    let viewport_height = fp_mul_s(fp_mul_s(FP_TWO as int, h), focus_dist);
    let viewport_width = fp_mul_s(viewport_height, fp_div_s(fp_from_int_s(image_width),
        fp_from_int_s(image_height)));
    let w = vec_unit_s(vec_sub_s(near_clip, far_clip));
    let u = vec_unit_s(cross_s(vup, w));
    let v = cross_s(w, u);
    let viewport_u = vec_mul_f_s(u, viewport_width);
    let viewport_v = vec_mul_f_s(vec_neg_s(v), viewport_height);
    let pixel_del_u = vec_div_f_s(viewport_u, fp_from_int_s(image_width));
    let pixel_del_v = vec_div_f_s(viewport_v, fp_from_int_s(image_height));
    let viewport_top_left = vec_sub_s(vec_sub_s(vec_sub_s(near_clip, vec_mul_f_s(w, focus_dist)),
        vec_div_f_s(viewport_u, FP_TWO as int)), vec_div_f_s(viewport_v, FP_TWO as int));
    let pixel00_loc = vec_add_s(viewport_top_left, vec_mul_f_s(vec_add_s(pixel_del_u, pixel_del_v),
        FP_HALF as int));
    let defocus_radius = fp_mul_s(focus_dist, fp_tan_s(deg_to_rad_s(fp_div_s(defocus_angle,
        FP_TWO as int))));
    Render {
        image_width: image_width as i64,
        image_height: image_height as i64,
        max_depth: max_depth as i64,
        samples_per_pixel: samples_per_pixel as i64,
        pixel_sample_scale: pixel_sample_scale as i64,
        camera_center: near_clip,
        pixel00_loc: pixel00_loc,
        pixel_del_u: pixel_del_u,
        pixel_del_v: pixel_del_v,
        defocus_angle: defocus_angle as i64,
        defocus_disk_u: vec_mul_f_s(u, defocus_radius),
        defocus_disk_v: vec_mul_f_s(v, defocus_radius),
    }
}

/// The jittered sample point of pixel `(i, j)`, offsets `dx`, `dy`.
pub open spec fn pixel_sample_s(ren: Render, i: int, j: int, dx: int, dy: int) -> Vec3 {
    vec_add_s(vec_add_s(ren.pixel00_loc, vec_mul_f_s(ren.pixel_del_u, fp_add_s(i, dx))),
        vec_mul_f_s(ren.pixel_del_v, fp_add_s(j, dy)))
}

/// A point of the defocus disk mapped through its basis vectors.
pub open spec fn defocus_point_s(ren: Render, px: int, py: int) -> Vec3 {
    vec_add_s(vec_add_s(ren.camera_center, vec_mul_f_s(ren.defocus_disk_u, px)), vec_mul_f_s(
        ren.defocus_disk_v, py))
}

/// The origins `get_ray` may draw with a positive defocus angle.
pub open spec fn defocus_origin_shape(ren: Render, o: Vec3) -> bool {
    exists|p: Vec3|
        p.z == 0 && #[trigger] len_sqr_s(p) < SCALE as int && o == defocus_point_s(ren, p.x as int,
        p.y as int)
}

/// What `get_ray` establishes: for some jitter offsets in
/// `[-1/2, 1/2)` and some admissible origin, the ray runs from that
/// origin toward the jittered sample point.
pub open spec fn get_ray_post(ren: Render, i: int, j: int, dx: int, dy: int, o: Vec3, r: Ray) -> bool {
    &&& -(FP_HALF as int) <= dx < FP_HALF as int
    &&& -(FP_HALF as int) <= dy < FP_HALF as int
    &&& if ren.defocus_angle <= 0 {
        o == ren.camera_center
    } else {
        defocus_origin_shape(ren, o)
    }
    &&& r.orig == o
    &&& r.dir == vec_sub_s(pixel_sample_s(ren, i, j, dx, dy), o)
}

/// The sky gradient a missing ray returns: white at the horizon
/// blending to blue upward, keyed on the unit direction's height.
pub open spec fn sky_color_s(r: Ray) -> Vec3
    recommends
        len_sqr_s(r.dir) > 0,
{
    let a = fp_mul_s(FP_HALF as int, fp_add_s(vec_unit_s(r.dir).y as int, SCALE as int));
    vec_add_s(vec_mul_f_s(Vec3 { x: SCALE, y: SCALE, z: SCALE }, fp_sub_s(SCALE as int, a)),
        vec_mul_f_s(Vec3 { x: FP_HALF, y: HORIZON_GREEN, z: SCALE }, a))
}

/// Wherever the unit direction's height does not overshoot one — it
/// can, by rounding, only for directions within a few quanta of the
/// zero vector — the sky gradient's channels all lie in `[0, 1]`.
pub proof fn lemma_sky_color_in_gamut(r: Ray)
    requires
        len_sqr_s(r.dir) > 0,
        -(SCALE as int) <= vec_unit_s(r.dir).y as int <= SCALE as int,
    ensures
        color_in_unit(sky_color_s(r)),
{
    let sc = SCALE as int;
    let uy = vec_unit_s(r.dir).y as int;
    let a = fp_mul_s(FP_HALF as int, fp_add_s(uy, sc));

    // a = (height + 1) / 2 lies in [0, 1]
    assert(32768 * (uy + sc) >= 0 && 32768 * (uy + sc) <= 0x100000000) by (nonlinear_arith)
        requires
            0 <= uy + sc <= 2 * sc,
            sc == 65536,
    ;
    lemma_div_is_ordered(32768 * (uy + sc), 0x100000000, sc);
    assert(0 <= a <= sc);

    // each blend weight is at most the whole of `a`
    assert(32768 * a <= a * 65536 && 45875 * a <= a * 65536 && 32768 * a >= 0 && 45875 * a >= 0)
        by (nonlinear_arith)
        requires
            0 <= a,
    ;
    lemma_div_is_ordered(32768 * a, a * 65536, sc);
    lemma_div_is_ordered(45875 * a, a * 65536, sc);
    lemma_fp_mul_scale_cancel(a);
    assert((a * 65536) / 65536 == a) by {
        vstd::arithmetic::div_mod::lemma_div_multiples_vanish(a, 65536);
        lemma_mul_is_commutative(a, 65536);
    }
    lemma_fp_mul_scale_cancel(fp_sub_s(sc, a));
}

/// A ray `get_ray` can hand out for the pixel at column `col`, row
/// `row`.
pub open spec fn pixel_ray_shape(ren: Render, col: int, row: int, ray: Ray) -> bool {
    exists|dx: int, dy: int, o: Vec3|
        #[trigger] get_ray_post(ren, fp_from_int_s(col), fp_from_int_s(row), dx, dy, o, ray)
}

/// The bounce decisions of one integrator run: the scattering
/// outcome drawn at each hit, outermost first.  `trace_admissible`
/// says each recorded outcome is one the material could draw for
/// the ray reaching it; `traced_color` evaluates the run.
pub open spec fn trace_admissible<H: Hittable>(r: Ray, depth: int, world: H, trace: Seq<
    Option<(Vec3, Ray)>>) -> bool
    decreases depth,
{
    if depth <= 0 {
        true
    } else {
        match world.hit_spec(r, T_MIN as int, i64::MAX as int) {
            Some(hm) => {
                &&& trace.len() > 0
                &&& scatter_outcome(hm.1, r, hm.0, trace[0])
                &&& (trace[0] is Some ==> trace_admissible(trace[0]->Some_0.1, depth - 1, world,
                    trace.skip(1)))
            },
            None => true,
        }
    }
}

/// The color of one integrator run under the recorded bounce
/// decisions: black once the depth budget is spent, the exact sky
/// gradient on a miss, black for a degenerate direction or an
/// absorbing outcome, and otherwise the outcome's attenuation times
/// the rest of the run.
pub open spec fn traced_color<H: Hittable>(r: Ray, depth: int, world: H, trace: Seq<
    Option<(Vec3, Ray)>>) -> Vec3
    decreases depth,
{
    if depth <= 0 {
        vec_zero()
    } else {
        match world.hit_spec(r, T_MIN as int, i64::MAX as int) {
            Some(hm) => if trace.len() == 0 {
                vec_zero()
            } else {
                match trace[0] {
                    Some(out) => vec_mul_s(out.0, traced_color(out.1, depth - 1, world,
                        trace.skip(1))),
                    None => vec_zero(),
                }
            },
            None => if len_sqr_s(r.dir) == 0 {
                vec_zero()
            } else {
                sky_color_s(r)
            },
        }
    }
}

/// The integrator's outcome relation: `c` is a color `ray_color` can
/// return for this ray, depth budget and scene — the evaluation of
/// some run whose every bounce decision is admissible.
pub open spec fn ray_color_outcome<H: Hittable>(r: Ray, depth: int, world: H, c: Vec3) -> bool {
    exists|trace: Seq<Option<(Vec3, Ray)>>|
        #![trigger trace_admissible(r, depth, world, trace)]
        trace_admissible(r, depth, world, trace) && c == traced_color(r, depth, world, trace)
}

/// Each sample of a pixel pairs a camera ray with an integrator
/// color that is admissible for it.
pub open spec fn samples_admissible<H: Hittable>(ren: Render, world: H, col: int, row: int,
    samples: Seq<(Ray, Vec3)>) -> bool {
    forall|q: int|
        0 <= q < samples.len() ==> {
            &&& #[trigger] pixel_ray_shape(ren, col, row, samples[q].0)
            &&& ray_color_outcome(samples[q].0, ren.max_depth as int, world, samples[q].1)
        }
}

/// The running sum of a sample list's colors.
pub open spec fn sum_colors(samples: Seq<(Ray, Vec3)>) -> Vec3
    decreases samples.len(),
{
    if samples.len() == 0 {
        vec_zero()
    } else {
        vec_add_s(sum_colors(samples.drop_last()), samples.last().1)
    }
}

/// The bytes displayed for an accumulated sample sum: the sum scaled
/// by the per-sample weight, gamma-corrected, clamped and quantized.
pub open spec fn pixel_from_sum(ren: Render, acc: Vec3, px: [u8; 3]) -> bool {
    let scaled = vec_mul_f_s(acc, ren.pixel_sample_scale as int);
    &&& px[0] as int == pixel_byte_s(scaled.x as int)
    &&& px[1] as int == pixel_byte_s(scaled.y as int)
    &&& px[2] as int == pixel_byte_s(scaled.z as int)
}

/// A finished pixel: the quantized weighted sum of
/// `samples_per_pixel` admissible samples of pixel `(col, row)`.
pub open spec fn pixel_outcome<H: Hittable>(ren: Render, world: H, col: int, row: int,
    px: [u8; 3]) -> bool {
    exists|samples: Seq<(Ray, Vec3)>|
        #![trigger samples_admissible(ren, world, col, row, samples)]
        {
            &&& samples.len() == ren.samples_per_pixel as int
            &&& samples_admissible(ren, world, col, row, samples)
            &&& pixel_from_sum(ren, sum_colors(samples), px)
        }
}

impl Render {
    /// The bounds the constructor establishes and the render loops
    /// rely on.
    pub open spec fn wf(&self) -> bool {
        &&& 1 <= self.image_width <= 65536
        &&& 1 <= self.image_height <= 0x800000000000
        &&& 1 <= self.samples_per_pixel <= 65536
    }

    pub fn new(aspect_ratio: i64, image_width: i64, samples_per_pixel: i64, max_depth: i64,
        vfov: i64, near_clip: Vec3, far_clip: Vec3, vup: Vec3, defocus_angle: i64, focus_dist: i64)
        -> (ren: Render)
        requires
            aspect_ratio > 0,
            1 <= image_width <= 65536,
            1 <= samples_per_pixel <= 65536,
            len_sqr_s(vec_sub_s(near_clip, far_clip)) > 0,
            len_sqr_s(cross_s(vup, vec_unit_s(vec_sub_s(near_clip, far_clip)))) > 0,
        ensures
            ren == render_config_s(aspect_ratio as int, image_width as int,
                samples_per_pixel as int, max_depth as int, vfov as int, near_clip, far_clip, vup,
                defocus_angle as int, focus_dist as int),
            ren.wf(),
    {
        let image_height: i64 = fp_max(fp_to_int(fp_div(fp_from_int(image_width), aspect_ratio)),
            1);

        let pixel_sample_scale: i64 = fp_div(SCALE, fp_from_int(samples_per_pixel));
        let h: i64 = fp_tan(fp_div(degress_to_radians(vfov), FP_TWO));

        let viewport_height: i64 = fp_mul(fp_mul(FP_TWO, h), focus_dist);
        let viewport_width: i64 = fp_mul(viewport_height, fp_div(fp_from_int(image_width),
            fp_from_int(image_height)));

        let w: Vec3 = near_clip.sub(&far_clip).unit();
        let u: Vec3 = vup.cross(&w).unit();
        let v: Vec3 = w.cross(&u);

        let viewport_u: Vec3 = u.mul_f(viewport_width);
        let viewport_v: Vec3 = v.neg().mul_f(viewport_height);

        let pixel_del_u: Vec3 = viewport_u.div_f(fp_from_int(image_width));
        let pixel_del_v: Vec3 = viewport_v.div_f(fp_from_int(image_height));

        let camera_center: Vec3 = near_clip;

        let viewport_top_left: Vec3 = camera_center.sub(&w.mul_f(focus_dist)).sub(
            &viewport_u.div_f(FP_TWO)).sub(&viewport_v.div_f(FP_TWO));
        let pixel00_loc: Vec3 = viewport_top_left.add(&pixel_del_u.add(&pixel_del_v).mul_f(FP_HALF));

        let defocus_radius: i64 = fp_mul(focus_dist, fp_tan(degress_to_radians(fp_div(
            defocus_angle, FP_TWO))));
        let defocus_disk_u: Vec3 = u.mul_f(defocus_radius);
        let defocus_disk_v: Vec3 = v.mul_f(defocus_radius);

        Render {
            image_width,
            image_height,
            max_depth,
            samples_per_pixel,
            pixel_sample_scale,
            camera_center,
            pixel00_loc,
            pixel_del_u,
            pixel_del_v,
            defocus_angle,
            defocus_disk_u,
            defocus_disk_v,
        }
    }

    /// One sample ray of pixel `(i, j)` (both fixed-point encoded):
    /// jittered through the pixel grid, from the camera center or a
    /// defocus-disk point.
    pub fn get_ray<E: Entropy>(&self, i: i64, j: i64, e: &mut E) -> (r: Ray)
        ensures
            exists|dx: int, dy: int, o: Vec3|
                #[trigger] get_ray_post(*self, i as int, j as int, dx, dy, o, r),
    {
        let x: i64 = fp_sub(random_float(e), FP_HALF);
        let y: i64 = fp_sub(random_float(e), FP_HALF);
        let pixel_sample: Vec3 = self.pixel00_loc.add(&self.pixel_del_u.mul_f(fp_add(i, x))).add(
            &self.pixel_del_v.mul_f(fp_add(j, y)));

        let origin: Vec3 = if self.defocus_angle <= 0 {
            self.camera_center
        } else {
            self.defocus_disk_sample(e)
        };
        let dir: Vec3 = pixel_sample.sub(&origin);

        let r: Ray = Ray::new(&origin, &dir);
        proof {
            assert(get_ray_post(*self, i as int, j as int, x as int, y as int, origin, r));
        }
        r
    }

    fn defocus_disk_sample<E: Entropy>(&self, e: &mut E) -> (o: Vec3)
        ensures
            defocus_origin_shape(*self, o),
    {
        let p: Vec3 = random_in_unit_disk(e);
        let o: Vec3 = self.camera_center.add(&self.defocus_disk_u.mul_f(p.x)).add(
            &self.defocus_disk_v.mul_f(p.y));
        proof {
            assert(p.z == 0 && len_sqr_s(p) < SCALE as int && o == defocus_point_s(*self,
                p.x as int, p.y as int));
        }
        o
    }

    /// The recursive path color.  With the depth budget spent the
    /// result is black, whatever the scene holds; a miss returns the
    /// sky gradient exactly; a ray whose direction's squared length
    /// rounds to zero is degenerate and also returns black.
    pub fn ray_color<H: Hittable, E: Entropy>(&self, r: Ray, depth: i64, world: &H, e: &mut E) -> (c:
        Vec3)
        requires
            world.wf(),
        ensures
            ray_color_outcome(r, depth as int, *world, c),
            depth <= 0 ==> c == vec_zero(),
            depth > 0 && world.hit_spec(r, T_MIN as int, i64::MAX as int) is None && len_sqr_s(
                r.dir) == 0 ==> c == vec_zero(),
            depth > 0 && world.hit_spec(r, T_MIN as int, i64::MAX as int) is None && len_sqr_s(
                r.dir) > 0 ==> c == sky_color_s(r),
        decreases depth,
    {
        if depth <= 0 {
            proof {
                let tr: Seq<Option<(Vec3, Ray)>> = Seq::empty();
                assert(trace_admissible(r, depth as int, *world, tr));
                assert(traced_color(r, depth as int, *world, tr) == vec_zero());
            }
            return empty();
        }

        let mut rec: HitRecord = HitRecord::new();
        let res: Option<Material> = world.hit(&r, Span { start: T_MIN, end: i64::MAX }, &mut rec);
        proof {
            world.hit_spec_facts(r, T_MIN as int, i64::MAX as int);
        }
        match res {
            Some(mat) => {
                let mut attenuation: Vec3 = empty();
                let mut scattered: Ray = Ray::empty();
                if mat.scatter(&r, &rec, &mut attenuation, &mut scattered, e) {
                    let bounced: Vec3 = self.ray_color(scattered, depth - 1, world, e);
                    let shaded: Vec3 = attenuation.mul(&bounced);
                    proof {
                        let hm = world.hit_spec(r, T_MIN as int, i64::MAX as int)->Some_0;
                        let sres: Option<(Vec3, Ray)> = Some((attenuation, scattered));
                        assert(scatter_outcome(hm.1, r, hm.0, sres));
                        let sub = choose|t: Seq<Option<(Vec3, Ray)>>|
                            #[trigger] trace_admissible(scattered, depth as int - 1, *world, t)
                                && bounced == traced_color(scattered, depth as int - 1, *world, t);
                        assert(trace_admissible(scattered, depth as int - 1, *world, sub)
                            && bounced == traced_color(scattered, depth as int - 1, *world, sub));
                        let tr = seq![sres] + sub;
                        assert(tr[0] == sres);
                        assert(tr.skip(1) =~= sub);
                        assert(trace_admissible(r, depth as int, *world, tr));
                        assert(traced_color(r, depth as int, *world, tr) == vec_mul_s(attenuation,
                            bounced));
                        assert(shaded == traced_color(r, depth as int, *world, tr));
                    }
                    shaded
                } else {
                    proof {
                        let hm = world.hit_spec(r, T_MIN as int, i64::MAX as int)->Some_0;
                        let tr: Seq<Option<(Vec3, Ray)>> = seq![None];
                        assert(scatter_outcome(hm.1, r, hm.0, tr[0]));
                        assert(trace_admissible(r, depth as int, *world, tr));
                        assert(traced_color(r, depth as int, *world, tr) == vec_zero());
                    }
                    empty()
                }
            },
            None => {
                let dls: i64 = r.direction().len_sqr();
                if dls == 0 {
                    proof {
                        let tr: Seq<Option<(Vec3, Ray)>> = Seq::empty();
                        assert(trace_admissible(r, depth as int, *world, tr));
                        assert(traced_color(r, depth as int, *world, tr) == vec_zero());
                    }
                    return empty();
                }
                let a: i64 = fp_mul(FP_HALF, fp_add(r.direction().unit().y, SCALE));
                let white: Vec3 = Vec3 { x: SCALE, y: SCALE, z: SCALE };
                let horizon: Vec3 = Vec3 { x: FP_HALF, y: HORIZON_GREEN, z: SCALE };
                let sky: Vec3 = white.mul_f(fp_sub(SCALE, a)).add(&horizon.mul_f(a));
                proof {
                    let tr: Seq<Option<(Vec3, Ray)>> = Seq::empty();
                    assert(sky == sky_color_s(r));
                    assert(trace_admissible(r, depth as int, *world, tr));
                    assert(traced_color(r, depth as int, *world, tr) == sky_color_s(r));
                }
                sky
            },
        }
    }

    /// One finished pixel: `samples_per_pixel` Monte Carlo samples,
    /// averaged and quantized.
    fn render_pixel<H: Hittable, E: Entropy>(&self, world: &H, col: usize, row: usize, e: &mut E)
        -> (px: [u8; 3])
        requires
            self.wf(),
            world.wf(),
            (col as int) < self.image_width as int,
            (row as int) < self.image_height as int,
        ensures
            pixel_outcome(*self, *world, col as int, row as int, px),
    {
        let fi: i64 = fp_from_int(col as i64);
        let fj: i64 = fp_from_int(row as i64);
        let mut pixel_color: Vec3 = empty();
        let mut s: i64 = 0;
        let ghost mut samples: Seq<(Ray, Vec3)> = Seq::empty();
        while s < self.samples_per_pixel
            invariant
                self.wf(),
                world.wf(),
                0 <= s <= self.samples_per_pixel,
                fi as int == fp_from_int_s(col as int),
                fj as int == fp_from_int_s(row as int),
                samples.len() == s as int,
                samples_admissible(*self, *world, col as int, row as int, samples),
                pixel_color == sum_colors(samples),
            decreases self.samples_per_pixel - s,
        {
            let r: Ray = self.get_ray(fi, fj, e);
            let c: Vec3 = self.ray_color(r, self.max_depth, world, e);
            pixel_color.add_assign(c);
            proof {
                assert(pixel_ray_shape(*self, col as int, row as int, r));
                let prev = samples;
                samples = samples.push((r, c));
                assert(samples.drop_last() =~= prev);
                assert(samples.last() == (r, c));
                assert forall|q: int| 0 <= q < samples.len() implies {
                    &&& #[trigger] pixel_ray_shape(*self, col as int, row as int, samples[q].0)
                    &&& ray_color_outcome(samples[q].0, self.max_depth as int, *world,
                        samples[q].1)
                } by {
                    if q < prev.len() {
                        assert(samples[q] == prev[q]);
                        assert(pixel_ray_shape(*self, col as int, row as int, prev[q].0));
                    } else {
                        assert(samples[q] == (r, c));
                    }
                }
                assert(pixel_color == vec_add_s(sum_colors(prev), c));
            }
            s = s + 1;
        }
        let px: [u8; 3] = get_pixel(pixel_color.mul_f(self.pixel_sample_scale));
        proof {
            assert(samples.len() == self.samples_per_pixel as int);
            assert(pixel_from_sum(*self, sum_colors(samples), px));
            assert(pixel_outcome(*self, *world, col as int, row as int, px));
        }
        px
    }

    /// Renders the pixels of the index range `start .. end`, each
    /// result carrying its destination index.
    pub fn render_chunk<H: Hittable, E: Entropy>(&self, world: &H, start: usize, end: usize,
        e: &mut E) -> (out: Vec<(usize, [u8; 3])>)
        requires
            self.wf(),
            world.wf(),
            start <= end,
            end as int <= self.image_width as int * self.image_height as int,
        ensures
            out@.len() == end - start,
            forall|q: int|
                0 <= q < out@.len() ==> {
                    &&& (#[trigger] out@[q]).0 == start + q
                    &&& pixel_outcome(*self, *world, (start + q) % (self.image_width as int), (
                    start + q) / (self.image_width as int), out@[q].1)
                },
    {
        let mut out: Vec<(usize, [u8; 3])> = Vec::new();
        let width: usize = self.image_width as usize;
        let mut idx: usize = start;
        while idx < end
            invariant
                self.wf(),
                world.wf(),
                width == self.image_width as usize,
                start <= idx <= end,
                end as int <= self.image_width as int * self.image_height as int,
                out@.len() == idx - start,
                forall|q: int|
                    0 <= q < out@.len() ==> {
                        &&& (#[trigger] out@[q]).0 == start + q
                        &&& pixel_outcome(*self, *world, (start + q) % (self.image_width as int),
                        (start + q) / (self.image_width as int), out@[q].1)
                    },
            decreases end - idx,
        {
            let row: usize = idx / width;
            let col: usize = idx % width;
            proof {
                vstd::arithmetic::div_mod::lemma_mod_bound(idx as int, width as int);
                vstd::arithmetic::div_mod::lemma_fundamental_div_mod(idx as int, width as int);
                assert((row as int) < self.image_height as int) by (nonlinear_arith)
                    requires
                        idx as int == width as int * (row as int) + (col as int),
                        0 <= (col as int) < width as int,
                        (idx as int) < self.image_width as int * self.image_height as int,
                        width as int == self.image_width as int,
                        self.image_height >= 1,
                ;
            }
            let px: [u8; 3] = self.render_pixel(world, col, row, e);
            out.push((idx, px));
            idx = idx + 1;
        }
        out
    }

    /// Renders the whole image into a flat row-major buffer: the
    /// index range is cut into chunks, each chunk rendered as one
    /// work item, and every result written at the index it carries.
    pub fn render<H: Hittable, E: Entropy>(&self, world: &H, e: &mut E) -> (pixels: Vec<[u8; 3]>)
        requires
            self.wf(),
            world.wf(),
            self.image_width as int * self.image_height as int + CHUNK_SIZE as int
                <= usize::MAX as int,
        ensures
            pixels@.len() == self.image_width as int * self.image_height as int,
            forall|k: int|
                0 <= k < pixels@.len() ==> pixel_outcome(*self, *world, k % (
                self.image_width as int), k / (self.image_width as int), #[trigger] pixels@[k]),
    {
        proof {
            assert(self.image_width as int * self.image_height as int >= 1
                && self.image_height as int <= self.image_width as int * self.image_height as int)
                by (nonlinear_arith)
                requires
                    self.image_width >= 1,
                    self.image_height >= 1,
            ;
            vstd::arithmetic::mul::lemma_mul_basics(CHUNK_SIZE as int);
        }
        let n: usize = (self.image_width as usize) * (self.image_height as usize);
        let chunks: Vec<(usize, usize)> = chunk_bounds(n, CHUNK_SIZE);

        let mut pixels: Vec<[u8; 3]> = Vec::new();
        let mut z: usize = 0;
        while z < n
            invariant
                z <= n,
                pixels@.len() == z,
            decreases n - z,
        {
            pixels.push([0u8, 0u8, 0u8]);
            z = z + 1;
        }

        let ghost mut cov: int = 0;
        let mut ci: usize = 0;
        while ci < chunks.len()
            invariant
                self.wf(),
                world.wf(),
                ci <= chunks@.len(),
                pixels@.len() == n,
                n as int == self.image_width as int * self.image_height as int,
                chunks@.len() == chunk_count_s(n as int, CHUNK_SIZE as int),
                forall|k: int| 0 <= k < chunks@.len() ==> #[trigger] chunks@[k] == ((k
                    * CHUNK_SIZE) as usize, (chunk_range_s(k, CHUNK_SIZE as int, n as int).1)
                    as usize),
                cov == if (ci as int) * (CHUNK_SIZE as int) <= n as int {
                    (ci as int) * (CHUNK_SIZE as int)
                } else {
                    n as int
                },
                forall|k: int|
                    0 <= k < cov ==> pixel_outcome(*self, *world, k % (self.image_width as int), k
                        / (self.image_width as int), #[trigger] pixels@[k]),
            decreases chunks@.len() - ci,
        {
            let pair: (usize, usize) = chunks[ci];
            proof {
                lemma_chunk_in_bounds(n as int, CHUNK_SIZE as int, ci as int);
                assert(pair.0 as int == (ci as int) * (CHUNK_SIZE as int));
                assert(cov == pair.0 as int);
            }
            let results: Vec<(usize, [u8; 3])> = self.render_chunk(world, pair.0, pair.1, e);
            let mut ri: usize = 0;
            while ri < results.len()
                invariant
                    self.wf(),
                    world.wf(),
                    pixels@.len() == n,
                    n as int == self.image_width as int * self.image_height as int,
                    ri <= results@.len(),
                    results@.len() == pair.1 - pair.0,
                    pair.0 <= pair.1 <= n,
                    forall|q: int|
                        0 <= q < results@.len() ==> {
                            &&& (#[trigger] results@[q]).0 == pair.0 + q
                            &&& pixel_outcome(*self, *world, (pair.0 + q) % (
                            self.image_width as int), (pair.0 + q) / (self.image_width as int),
                            results@[q].1)
                        },
                    forall|k: int|
                        0 <= k < pair.0 + ri ==> pixel_outcome(*self, *world, k % (
                        self.image_width as int), k / (self.image_width as int), #[trigger]
                        pixels@[k]),
                decreases results@.len() - ri,
            {
                let item: (usize, [u8; 3]) = results[ri];
                let ghost prevp = pixels@;
                pixels.set(item.0, item.1);
                proof {
                    assert forall|k: int|
                        0 <= k < pair.0 + ri + 1 implies pixel_outcome(*self, *world, k % (
                        self.image_width as int), k / (self.image_width as int), #[trigger]
                        pixels@[k]) by {
                        if k < pair.0 + ri {
                            assert(pixels@[k] == prevp[k]);
                        } else {
                            assert(pixels@[k] == item.1);
                        }
                    }
                }
                ri = ri + 1;
            }
            proof {
                cov = pair.1 as int;
                assert((ci as int + 1) * (CHUNK_SIZE as int) == (ci as int) * (
                CHUNK_SIZE as int) + CHUNK_SIZE as int) by (nonlinear_arith);
            }
            ci = ci + 1;
        }
        proof {
            if n > 0 {
                let csize = CHUNK_SIZE as int;
                let q = (n as int - 1) / csize;
                lemma_fundamental_div_mod(n as int - 1, csize);
                lemma_mod_bound(n as int - 1, csize);
                lemma_mul_is_commutative(csize, q);
                assert((q + 1) * csize == q * csize + csize) by (nonlinear_arith);
                assert(chunk_count_s(n as int, csize) * csize >= n as int);
            }
            assert(cov == n as int);
        }
        pixels
    }
}

} // verus!
