//! The work-partition layer of the scheduler.
//!
//! Pixels are addressed by their linear row-major index.  The index
//! range is cut into fixed-size chunks; each chunk is an independent
//! work item, and the partition is a bijection over the pixel
//! indices: every index lies in exactly one chunk.  That is what
//! licenses writing each output slot from exactly one work item.

use vstd::prelude::*;
use vstd::arithmetic::div_mod::*;
use vstd::arithmetic::mul::*;

verus! {

/// How many pixels one chunk work-item holds; a tuning constant,
/// independent of the worker count.
pub const CHUNK_SIZE: usize = 4096;

/// How many chunks a pixel count `n` yields under chunk size `c`.
pub open spec fn chunk_count_s(n: int, c: int) -> int
    recommends
        c >= 1,
{
    if n == 0 {
        0
    } else {
        (n - 1) / c + 1
    }
}

/// The half-open index range of chunk `k`.
pub open spec fn chunk_range_s(k: int, c: int, n: int) -> (int, int) {
    (k * c, if k * c + c <= n { k * c + c } else { n })
}

/// The chunk that holds pixel index `idx`.
pub open spec fn chunk_of_s(idx: int, c: int) -> int
    recommends
        c >= 1,
{
    idx / c
}

/// Cuts `0 .. n` into chunks of `c` indices, the last possibly
/// shorter.
pub fn chunk_bounds(n: usize, c: usize) -> (v: Vec<(usize, usize)>)
    requires
        c >= 1,
        n + c <= usize::MAX,
    ensures
        v@.len() == chunk_count_s(n as int, c as int),
        forall|k: int| 0 <= k < v@.len() ==> #[trigger] v@[k] == ((k * c) as usize, (
        chunk_range_s(k, c as int, n as int).1) as usize),
{
    let mut v: Vec<(usize, usize)> = Vec::new();
    let mut start: usize = 0;
    proof {
        lemma_mul_basics(c as int);
    }
    while start < n
        invariant
            c >= 1,
            n + c <= usize::MAX,
            start <= n,
            start < n ==> start as int == v@.len() * c,
            start >= n ==> v@.len() == chunk_count_s(n as int, c as int),
            forall|k: int| 0 <= k < v@.len() ==> #[trigger] v@[k] == ((k * c) as usize, (
            chunk_range_s(k, c as int, n as int).1) as usize),
        decreases n - start,
    {
        let end: usize = if n - start > c {
            start + c
        } else {
            n
        };
        proof {
            let k = v@.len() as int;
            let ci = c as int;
            let ni = n as int;
            assert(k * ci + ci == (k + 1) * ci) by (nonlinear_arith);
            assert(chunk_range_s(k, ci, ni).0 == start);
            if end == n {
                // the last chunk: start <= n - 1 < start + c pins (n-1)/c to k
                lemma_mul_is_commutative(ci, k);
                lemma_div_multiples_vanish_fancy(k, ni - 1 - k * ci, ci);
                assert((ni - 1) / ci == k);
                assert(chunk_count_s(ni, ci) == k + 1);
            }
        }
        v.push((start, end));
        start = end;
    }
    proof {
        if n == 0 {
            assert(v@.len() == 0);
        }
    }
    v
}

/// The partition law: every pixel index below `n` lies in the range
/// of exactly one chunk, the chunk `idx / c`; and every chunk range
/// stays within `0 .. n`.
pub proof fn lemma_chunk_partition(n: int, c: int, idx: int)
    requires
        c >= 1,
        0 <= idx < n,
    ensures
        0 <= chunk_of_s(idx, c) < chunk_count_s(n, c),
        chunk_range_s(chunk_of_s(idx, c), c, n).0 <= idx < chunk_range_s(chunk_of_s(idx, c), c, n).1,
        forall|k: int|
            0 <= k < chunk_count_s(n, c) && k != chunk_of_s(idx, c)
                ==> !(#[trigger] chunk_range_s(k, c, n).0 <= idx < chunk_range_s(k, c, n).1),
{
    let k0 = idx / c;
    lemma_fundamental_div_mod(idx, c);
    lemma_mod_bound(idx, c);
    lemma_mul_is_commutative(c, k0);
    assert(k0 * c <= idx < k0 * c + c);
    assert(k0 >= 0) by {
        lemma_div_is_ordered(0, idx, c);
    }
    assert(k0 < chunk_count_s(n, c)) by {
        lemma_div_is_ordered(idx, n - 1, c);
    }
    assert forall|k: int|
        0 <= k < chunk_count_s(n, c) && k != k0 implies !(#[trigger] chunk_range_s(k, c, n).0 <= idx
        < chunk_range_s(k, c, n).1) by {
        if k < k0 {
            assert(k * c + c <= k0 * c) by (nonlinear_arith)
                requires
                    k + 1 <= k0,
                    c >= 1,
            ;
        } else if k > k0 {
            assert(k0 * c + c <= k * c) by (nonlinear_arith)
                requires
                    k0 + 1 <= k,
                    c >= 1,
            ;
        }
    }
}

/// Every chunk the partition yields lies within `0 .. n`.
pub proof fn lemma_chunk_in_bounds(n: int, c: int, k: int)
    requires
        c >= 1,
        n >= 0,
        0 <= k < chunk_count_s(n, c),
    ensures
        0 <= chunk_range_s(k, c, n).0 <= chunk_range_s(k, c, n).1 <= n,
{
    assert(k * c >= 0) by (nonlinear_arith)
        requires
            k >= 0,
            c >= 1,
    ;
    assert(n > 0);
    let q = (n - 1) / c;
    assert(k * c <= q * c) by (nonlinear_arith)
        requires
            k <= q,
            c >= 1,
    ;
    lemma_fundamental_div_mod(n - 1, c);
    lemma_mod_bound(n - 1, c);
    lemma_mul_is_commutative(c, q);
    assert(q * c <= n - 1);
}

} // verus!
