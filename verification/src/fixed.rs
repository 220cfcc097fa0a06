//! Fixed-point scalar arithmetic.
//!
//! A real quantity `q` is carried as the `i64` value `round(q * SCALE)`.
//! Every operation is total: results that would leave the `i64` range
//! saturate, and multiplication and division round toward zero.  Each
//! executable operation is specified exactly by a spec function of the
//! same shape, so callers can compute with the model.

use vstd::prelude::*;
use vstd::arithmetic::mul::*;
use vstd::arithmetic::div_mod::*;

verus! {

/// One unit (the real value 1.0) in fixed-point encoding.
pub const SCALE: i64 = 65536;

/// One half (the real value 0.5) in fixed-point encoding.
pub const FP_HALF: i64 = 32768;

/// Two in fixed-point encoding.
pub const FP_TWO: i64 = 131072;

/// Saturation of a mathematical integer into the `i64` range.
pub open spec fn fp_sat(x: int) -> int {
    if x > i64::MAX as int {
        i64::MAX as int
    } else if x < i64::MIN as int {
        i64::MIN as int
    } else {
        x
    }
}

/// Absolute value of a mathematical integer.
pub open spec fn abs_int(x: int) -> int {
    if x < 0 {
        -x
    } else {
        x
    }
}

/// Division rounding toward zero, the rounding used by every
/// fixed-point operation here.
pub open spec fn tdiv(a: int, b: int) -> int
    recommends
        b != 0,
{
    if (a < 0) == (b < 0) {
        abs_int(a) / abs_int(b)
    } else {
        -(abs_int(a) / abs_int(b))
    }
}

pub open spec fn fp_add_s(a: int, b: int) -> int {
    fp_sat(a + b)
}

pub open spec fn fp_sub_s(a: int, b: int) -> int {
    fp_sat(a - b)
}

pub open spec fn fp_neg_s(a: int) -> int {
    fp_sat(-a)
}

pub open spec fn fp_mul_s(a: int, b: int) -> int {
    fp_sat(tdiv(a * b, SCALE as int))
}

pub open spec fn fp_div_s(a: int, b: int) -> int
    recommends
        b != 0,
{
    fp_sat(tdiv(a * (SCALE as int), b))
}

pub open spec fn fp_from_int_s(n: int) -> int {
    fp_sat(n * (SCALE as int))
}

pub open spec fn fp_to_int_s(x: int) -> int {
    tdiv(x, SCALE as int)
}

/// The integer square root: the largest `r` with `r * r <= n`.
pub open spec fn isqrt_s(n: nat) -> nat
    decreases n,
{
    if n == 0 {
        0
    } else {
        let r = 2 * isqrt_s((n / 4) as nat);
        if (r + 1) * (r + 1) <= n {
            r + 1
        } else {
            r
        }
    }
}

/// Square root of a non-negative fixed-point value: since the encoding
/// of `q` is `q * SCALE`, the encoding of `sqrt(q)` is `sqrt(q * SCALE * SCALE / SCALE)`,
/// that is the integer square root of the encoding times `SCALE`.
pub open spec fn fp_sqrt_s(x: int) -> int
    recommends
        x >= 0,
{
    isqrt_s((x * (SCALE as int)) as nat) as int
}

pub proof fn lemma_isqrt_bounds(n: nat)
    ensures
        isqrt_s(n) * isqrt_s(n) <= n,
        n < (isqrt_s(n) + 1) * (isqrt_s(n) + 1),
    decreases n,
{
    if n == 0 {
        assert(isqrt_s(n) == 0);
        assert(n < (isqrt_s(n) + 1) * (isqrt_s(n) + 1)) by (nonlinear_arith)
            requires
                n == 0,
                isqrt_s(n) == 0,
        ;
    } else {
        let m = (n / 4) as nat;
        lemma_isqrt_bounds(m);
        let r0 = isqrt_s(m);
        let r = 2 * r0;
        lemma_fundamental_div_mod(n as int, 4);
        assert(r * r <= 4 * (r0 * r0)) by (nonlinear_arith)
            requires
                r == 2 * r0,
        ;
        assert(4 * (r0 * r0) <= 4 * m);
        assert(n < (r + 2) * (r + 2)) by (nonlinear_arith)
            requires
                r == 2 * r0,
                m < (r0 + 1) * (r0 + 1),
                n < 4 * m + 4,
        ;
        assert(4 * m <= n);
        assert(r * r <= n);
        if (r + 1) * (r + 1) <= n {
            assert(isqrt_s(n) == r + 1);
        } else {
            assert(isqrt_s(n) == r);
        }
    }
}

pub proof fn lemma_isqrt_unique(n: nat, r: nat)
    requires
        r * r <= n,
        n < (r + 1) * (r + 1),
    ensures
        r == isqrt_s(n),
{
    lemma_isqrt_bounds(n);
    let q = isqrt_s(n);
    if r < q {
        assert(false) by (nonlinear_arith)
            requires
                r < q,
                q * q <= n,
                n < (r + 1) * (r + 1),
        ;
    }
    if q < r {
        assert(false) by (nonlinear_arith)
            requires
                q < r,
                r * r <= n,
                n < (q + 1) * (q + 1),
        ;
    }
}

/// On an exactly divisible value, truncating and euclidean division
/// agree.
pub proof fn lemma_tdiv_exact(x: int, d: int)
    requires
        d > 0,
        x % d == 0,
    ensures
        tdiv(x, d) == x / d,
{
    if x < 0 {
        lemma_fundamental_div_mod(x, d);
        lemma_div_multiples_vanish(-(x / d), d);
        assert(d * -(x / d) == -(d * (x / d))) by (nonlinear_arith);
        assert(-x == d * -(x / d));
    }
}

/// Dividing a fixed-point value by one (the encoding of `SCALE`)
/// only saturates it.
pub proof fn lemma_fp_div_scale_cancel(x: int)
    ensures
        fp_div_s(x, SCALE as int) == fp_sat(x),
{
    lemma_mod_multiples_basic(x, SCALE as int);
    lemma_tdiv_exact(x * (SCALE as int), SCALE as int);
    lemma_mul_is_commutative(x, SCALE as int);
    lemma_div_multiples_vanish(x, SCALE as int);
}

/// Multiplying a fixed-point value by one only saturates it.
pub proof fn lemma_fp_mul_scale_cancel(x: int)
    ensures
        fp_mul_s(SCALE as int, x) == fp_sat(x),
        fp_mul_s(x, SCALE as int) == fp_sat(x),
{
    lemma_mod_multiples_basic(x, SCALE as int);
    lemma_tdiv_exact(x * (SCALE as int), SCALE as int);
    lemma_mul_is_commutative(x, SCALE as int);
    lemma_div_multiples_vanish(x, SCALE as int);
}

/// The fixed-point product of two multiples of 256 (the square root
/// of `SCALE`) is exact: no rounding happens, only saturation.
pub proof fn lemma_fp_mul_quarter_exact(a: int, b: int)
    requires
        a % 256 == 0,
        b % 256 == 0,
    ensures
        a * b == (SCALE as int) * ((a / 256) * (b / 256)),
        fp_mul_s(a, b) == fp_sat((a / 256) * (b / 256)),
{
    let ja = a / 256;
    let jb = b / 256;
    lemma_fundamental_div_mod(a, 256);
    lemma_fundamental_div_mod(b, 256);
    assert(a * b == 65536 * (ja * jb)) by (nonlinear_arith)
        requires
            a == 256 * ja,
            b == 256 * jb,
    ;
    lemma_mul_is_commutative(65536, ja * jb);
    lemma_mod_multiples_basic(ja * jb, 65536);
    lemma_tdiv_exact(a * b, SCALE as int);
    lemma_div_multiples_vanish(ja * jb, 65536);
}

/// Magnitude of an `i64`, exact even for `i64::MIN`.
fn mag64(a: i64) -> (r: u64)
    ensures
        r as int == abs_int(a as int),
{
    if a >= 0 {
        a as u64
    } else {
        (-(a as i128)) as u64
    }
}

/// Saturation of an `i128` into the `i64` range.
fn sat_i128(s: i128) -> (r: i64)
    ensures
        r as int == fp_sat(s as int),
{
    if s > i64::MAX as i128 {
        i64::MAX
    } else if s < i64::MIN as i128 {
        i64::MIN
    } else {
        s as i64
    }
}

/// Reattaches a sign to a non-negative magnitude and saturates.
fn signed_sat(neg: bool, q: u128) -> (r: i64)
    ensures
        r as int == fp_sat(if neg { -(q as int) } else { q as int }),
{
    if neg {
        if q >= 0x8000000000000000u128 {
            i64::MIN
        } else {
            -(q as i64)
        }
    } else {
        if q > i64::MAX as u128 {
            i64::MAX
        } else {
            q as i64
        }
    }
}

pub fn fp_add(a: i64, b: i64) -> (r: i64)
    ensures
        r as int == fp_add_s(a as int, b as int),
{
    sat_i128(a as i128 + b as i128)
}

pub fn fp_sub(a: i64, b: i64) -> (r: i64)
    ensures
        r as int == fp_sub_s(a as int, b as int),
{
    sat_i128(a as i128 - b as i128)
}

pub fn fp_neg(a: i64) -> (r: i64)
    ensures
        r as int == fp_neg_s(a as int),
{
    if a == i64::MIN {
        i64::MAX
    } else {
        -a
    }
}

proof fn lemma_abs_mul(a: int, b: int)
    ensures
        abs_int(a) * abs_int(b) == abs_int(a * b),
        ((a < 0) == (b < 0)) ==> a * b >= 0,
        ((a < 0) != (b < 0)) ==> a * b <= 0,
{
    if a >= 0 && b >= 0 {
        lemma_mul_nonnegative(a, b);
    } else if a < 0 && b < 0 {
        lemma_mul_unary_negation(a, b);
        lemma_mul_unary_negation(-a, b);
        lemma_mul_nonnegative(-a, -b);
    } else if a < 0 {
        lemma_mul_unary_negation(a, b);
        lemma_mul_nonnegative(-a, b);
    } else {
        lemma_mul_unary_negation(a, -b);
        lemma_mul_nonnegative(a, -b);
    }
}

pub fn fp_mul(a: i64, b: i64) -> (r: i64)
    ensures
        r as int == fp_mul_s(a as int, b as int),
{
    let neg: bool = (a < 0) != (b < 0);
    let ma: u128 = mag64(a) as u128;
    let mb: u128 = mag64(b) as u128;
    proof {
        assert(ma * mb <= 0x8000000000000000u128 * 0x8000000000000000u128) by (nonlinear_arith)
            requires
                ma <= 0x8000000000000000u128,
                mb <= 0x8000000000000000u128,
        ;
    }
    let p: u128 = ma * mb;
    let q: u128 = p / (SCALE as u128);
    proof {
        lemma_abs_mul(a as int, b as int);
        lemma_div_is_ordered(q as int, p as int, 1);
        assert(q <= p) by {
            lemma_div_is_ordered_by_denominator(p as int, 1, SCALE as int);
        }
        if neg {
            assert(tdiv((a as int) * (b as int), SCALE as int) == -(q as int));
        } else {
            assert(tdiv((a as int) * (b as int), SCALE as int) == q as int);
        }
    }
    signed_sat(neg, q)
}

pub fn fp_div(a: i64, b: i64) -> (r: i64)
    requires
        b != 0,
    ensures
        r as int == fp_div_s(a as int, b as int),
{
    let neg: bool = (a < 0) != (b < 0);
    let ma: u128 = mag64(a) as u128;
    let mb: u128 = mag64(b) as u128;
    proof {
        assert(ma * (SCALE as u128) <= 0x8000000000000000u128 * 0x10000u128) by (nonlinear_arith)
            requires
                ma <= 0x8000000000000000u128,
        ;
    }
    let p: u128 = ma * (SCALE as u128);
    let q: u128 = p / mb;
    proof {
        lemma_abs_mul(a as int, SCALE as int);
        assert((a < 0) == ((a as int) * (SCALE as int) < 0) || a == 0);
        if neg {
            assert(tdiv((a as int) * (SCALE as int), b as int) == -(q as int));
        } else {
            assert(tdiv((a as int) * (SCALE as int), b as int) == q as int);
        }
    }
    signed_sat(neg, q)
}

pub fn fp_from_int(n: i64) -> (r: i64)
    ensures
        r as int == fp_from_int_s(n as int),
{
    proof {
        assert((n as i128) * (SCALE as i128) <= 0x8000000000000000i128 * 0x10000i128
            && (n as i128) * (SCALE as i128) >= (-0x8000000000000000i128) * 0x10000i128)
            by (nonlinear_arith)
            requires
                -0x8000000000000000i128 <= n as i128 <= 0x8000000000000000i128,
                SCALE == 65536,
        ;
    }
    let p: i128 = (n as i128) * (SCALE as i128);
    if p > i64::MAX as i128 {
        i64::MAX
    } else if p < i64::MIN as i128 {
        i64::MIN
    } else {
        p as i64
    }
}

pub fn fp_to_int(x: i64) -> (r: i64)
    ensures
        r as int == fp_to_int_s(x as int),
{
    let m: u64 = mag64(x);
    let q: u64 = m / (SCALE as u64);
    proof {
        lemma_div_is_ordered(m as int, u64::MAX as int, SCALE as int);
    }
    if x >= 0 {
        q as i64
    } else {
        -(q as i64)
    }
}

pub fn fp_sqrt(x: i64) -> (r: i64)
    requires
        x >= 0,
    ensures
        r as int == fp_sqrt_s(x as int),
        r >= 0,
{
    proof {
        assert((x as u128) * (SCALE as u128) <= 0x7fffffffffffffffu128 * 0x10000u128)
            by (nonlinear_arith)
            requires
                x as u128 <= 0x7fffffffffffffffu128,
                SCALE == 65536,
        ;
    }
    let s: u128 = (x as u128) * (SCALE as u128);
    let mut lo: u64 = 0;
    let mut hi: u64 = 0x10000000000;
    while lo < hi
        invariant
            (lo as int) * (lo as int) <= s as int,
            (s as int) < ((hi as int) + 1) * ((hi as int) + 1),
            lo <= hi,
            hi <= 0x10000000000,
        decreases hi - lo,
    {
        let mid: u64 = lo + (hi - lo + 1) / 2;
        proof {
            assert((mid as int) * (mid as int) <= 0x10000000000i64 * 0x10000000000i64) by (nonlinear_arith)
                requires
                    mid <= 0x10000000000u64,
            ;
        }
        if (mid as u128) * (mid as u128) <= s {
            lo = mid;
        } else {
            hi = mid - 1;
        }
    }
    proof {
        lemma_isqrt_unique(s as nat, lo as nat);
    }
    lo as i64
}

pub fn fp_min(a: i64, b: i64) -> (r: i64)
    ensures
        r == if a as int <= b as int { a } else { b },
{
    if a <= b {
        a
    } else {
        b
    }
}

pub fn fp_max(a: i64, b: i64) -> (r: i64)
    ensures
        r == if a as int >= b as int { a } else { b },
{
    if a >= b {
        a
    } else {
        b
    }
}

} // verus!
