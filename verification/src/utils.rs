//! The entropy provider and small numeric helpers.
//!
//! The renderer never reaches for a random source directly: every
//! sampling routine takes an [`Entropy`] implementation, so a render
//! can run against the thread-local generator or against a fixed,
//! reproducible source.

use vstd::prelude::*;
use rand::Rng;
use crate::fixed::{
    SCALE, FP_TWO, fp_add_s, fp_sub_s, fp_mul_s, fp_div_s, fp_add, fp_sub, fp_mul, fp_div,
};

verus! {

/// Pi in fixed-point encoding.
pub const FP_PI: i64 = 205887;

/// 180 in fixed-point encoding.
pub const FP_180: i64 = 11796480;

/// A source of uniform fixed-point values in `[0, 1)`.
pub trait Entropy {
    fn next_unit(&mut self) -> (r: i64)
        ensures
            0 <= r < SCALE,
    ;
}

/// Relies on `rand::Rng::gen_range` over `rand::thread_rng()`: it
/// returns a value of the given non-empty half-open range, here
/// `[0, SCALE)`.
#[verifier::external_body]
fn draw_unit() -> (r: i64)
    ensures
        0 <= r < SCALE,
{
    rand::thread_rng().gen_range(0..65536)
}

/// Entropy from the thread-local random generator.
pub struct ThreadEntropy {
}

impl Entropy for ThreadEntropy {
    fn next_unit(&mut self) -> (r: i64)
        ensures
            0 <= r < SCALE,
    {
        draw_unit()
    }
}

/// Entropy that always hands back the same value; a `u16` holds
/// exactly the fixed-point values of `[0, 1)`.
pub struct ConstEntropy {
    pub value: u16,
}

impl Entropy for ConstEntropy {
    fn next_unit(&mut self) -> (r: i64)
        ensures
            0 <= r < SCALE,
            r == old(self).value as i64,
            *final(self) == *old(self),
    {
        self.value as i64
    }
}

/// Six in fixed-point encoding.
pub const FP_SIX: i64 = 393216;

/// Twenty-four in fixed-point encoding.
pub const FP_24: i64 = 1572864;

/// One hundred and twenty in fixed-point encoding.
pub const FP_120: i64 = 7864320;

pub open spec fn deg_to_rad_s(d: int) -> int {
    fp_div_s(fp_mul_s(d, FP_PI as int), FP_180 as int)
}

/// The sine polynomial `x - x^3/6 + x^5/120`, evaluated in
/// fixed-point arithmetic; a close approximation for the small
/// angles a camera is built from.
pub open spec fn fp_sin_s(x: int) -> int {
    let x2 = fp_mul_s(x, x);
    let x3 = fp_mul_s(x2, x);
    let x5 = fp_mul_s(x3, x2);
    fp_add_s(fp_sub_s(x, fp_div_s(x3, FP_SIX as int)), fp_div_s(x5, FP_120 as int))
}

/// The cosine polynomial `1 - x^2/2 + x^4/24`, evaluated in
/// fixed-point arithmetic.
pub open spec fn fp_cos_s(x: int) -> int {
    let x2 = fp_mul_s(x, x);
    let x4 = fp_mul_s(x2, x2);
    fp_add_s(fp_sub_s(SCALE as int, fp_div_s(x2, FP_TWO as int)), fp_div_s(x4, FP_24 as int))
}

/// Tangent as the quotient of the two polynomials; where the cosine
/// polynomial is not positive the angle is outside the supported
/// range and the largest value stands in.
pub open spec fn fp_tan_s(x: int) -> int {
    if fp_cos_s(x) <= 0 {
        i64::MAX as int
    } else {
        fp_div_s(fp_sin_s(x), fp_cos_s(x))
    }
}

pub fn fp_sin(x: i64) -> (r: i64)
    ensures
        r as int == fp_sin_s(x as int),
{
    let x2: i64 = fp_mul(x, x);
    let x3: i64 = fp_mul(x2, x);
    let x5: i64 = fp_mul(x3, x2);
    fp_add(fp_sub(x, fp_div(x3, FP_SIX)), fp_div(x5, FP_120))
}

pub fn fp_cos(x: i64) -> (r: i64)
    ensures
        r as int == fp_cos_s(x as int),
{
    let x2: i64 = fp_mul(x, x);
    let x4: i64 = fp_mul(x2, x2);
    fp_add(fp_sub(SCALE, fp_div(x2, FP_TWO)), fp_div(x4, FP_24))
}

pub fn fp_tan(x: i64) -> (r: i64)
    ensures
        r as int == fp_tan_s(x as int),
{
    let c: i64 = fp_cos(x);
    if c <= 0 {
        i64::MAX
    } else {
        fp_div(fp_sin(x), c)
    }
}

pub fn degress_to_radians(d: i64) -> (r: i64)
    ensures
        r as int == deg_to_rad_s(d as int),
{
    fp_div(fp_mul(d, FP_PI), FP_180)
}

pub fn random_float<E: Entropy>(e: &mut E) -> (r: i64)
    ensures
        0 <= r < SCALE,
{
    e.next_unit()
}

/// Linear interpolation from `min` toward `max` by the unit value `u`.
pub open spec fn lerp_s(min: int, max: int, u: int) -> int {
    fp_add_s(min, fp_mul_s(fp_sub_s(max, min), u))
}

pub fn random_min_max<E: Entropy>(min: i64, max: i64, e: &mut E) -> (r: i64)
    ensures
        exists|u: int| 0 <= u < SCALE && r as int == lerp_s(min as int, max as int, u),
{
    let u: i64 = random_float(e);
    let r: i64 = fp_add(min, fp_mul(fp_sub(max, min), u));
    proof {
        assert(0 <= (u as int) && (u as int) < SCALE);
        assert(r as int == lerp_s(min as int, max as int, u as int));
    }
    r
}

} // verus!
