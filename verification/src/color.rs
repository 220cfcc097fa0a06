//! Linear-to-display color mapping and 8-bit quantization.

use vstd::prelude::*;
use crate::fixed::{SCALE, fp_sqrt_s, fp_sqrt, tdiv};
use crate::interval::{Span, Interval, clamp_s};
use crate::vec3::Vec3;

verus! {

/// Colors are plain vectors; callers track the meaning.
pub type Color = Vec3;

/// The largest linear channel value admitted before quantization:
/// 0.999 in fixed-point encoding, rounded down.
pub const CLAMP_MAX: i64 = 65470;

/// Gamma correction: the square root of a positive channel, zero for
/// a channel that is zero or negative.
pub open spec fn linear_to_gamma_s(x: int) -> int {
    if x > 0 {
        fp_sqrt_s(x)
    } else {
        0
    }
}

pub fn linear_to_gamma(linear: i64) -> (r: i64)
    ensures
        r as int == linear_to_gamma_s(linear as int),
        r >= 0,
{
    if linear > 0 {
        fp_sqrt(linear)
    } else {
        0
    }
}

/// The display byte of one linear channel: gamma correction, clamping
/// into `[0, CLAMP_MAX]`, then quantization by `floor(256 * clamped)`.
pub open spec fn pixel_byte_s(x: int) -> int {
    tdiv(clamp_s(0, CLAMP_MAX as int, linear_to_gamma_s(x)) * 256, SCALE as int)
}

/// Every channel byte lies in `[0, 255]`.
pub proof fn lemma_pixel_byte_range(x: int)
    ensures
        0 <= pixel_byte_s(x) <= 255,
{
    let cl = clamp_s(0, CLAMP_MAX as int, linear_to_gamma_s(x));
    assert(0 <= cl <= CLAMP_MAX as int);
    assert(0 <= cl * 256 <= 16760320);
    assert(pixel_byte_s(x) == (cl * 256) / (SCALE as int));
}

fn quantize(clamped: i64) -> (r: u8)
    requires
        0 <= clamped <= CLAMP_MAX,
    ensures
        r as int == tdiv(clamped as int * 256, SCALE as int),
{
    let q: u64 = (clamped as u64) * 256 / 65536;
    q as u8
}

/// The RGB byte triple displayed for a linear color.
pub fn get_pixel(color: Vec3) -> (p: [u8; 3])
    ensures
        p[0] as int == pixel_byte_s(color.x as int),
        p[1] as int == pixel_byte_s(color.y as int),
        p[2] as int == pixel_byte_s(color.z as int),
{
    let range: Span = Span { start: 0, end: CLAMP_MAX };
    let rb: u8 = quantize(range.clamp(linear_to_gamma(color.x)));
    let gb: u8 = quantize(range.clamp(linear_to_gamma(color.y)));
    let bb: u8 = quantize(range.clamp(linear_to_gamma(color.z)));
    [rb, gb, bb]
}

} // verus!
