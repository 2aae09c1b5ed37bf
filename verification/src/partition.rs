//! The partitioned evaluator and its work-splitting policies.
//!
//! The outer summation indices `0..n` are split into `worker_count`
//! contiguous blocks computed once before any work starts; each block's
//! running sum is exactly [`crate::interp::block_partial_sum`], and the
//! partial results are reduced by addition in worker-index order. Two
//! policies are offered:
//!
//! * the floor-division policy of the original fork-join split, under
//!   which worker `k` covers `k*(n/w) .. (k+1)*(n/w)` and the trailing
//!   `n % w` indices are covered by no worker at all; and
//! * a balanced policy, under which the first `n % w` workers take one
//!   extra index so that the blocks tile `0..n` exactly.
//!
//! Because each worker's partial sum is a pure function of its inputs,
//! the value gathered here is bit-identical to the value a concurrent
//! fork-join execution of the same blocks reduces in the same order.

use vstd::prelude::*;
use vstd::arithmetic::div_mod::{lemma_fundamental_div_mod, lemma_mod_bound, lemma_div_pos_is_pos};
use vstd::arithmetic::mul::lemma_mul_inequality;
use crate::arith::add_bits_of;
use crate::arith::add_bits;
use crate::interp::{Point, block_sum, block_partial_sum, lemma_block_sum_same};

verus! {

/// The reduction of the workers' partial sums: a running addition in
/// worker-index order, starting from the bit pattern of `+0.0`.
pub open spec fn fold_partials(ps: Seq<u64>) -> u64
    decreases ps.len(),
{
    if ps.len() == 0 {
        0u64
    } else {
        add_bits_of(fold_partials(ps.drop_last()), ps.last())
    }
}

/// The partial sums under the floor-division policy: worker `k` of `w`
/// covers the outer indices `k*(n/w) .. (k+1)*(n/w)`.
pub open spec fn floor_partials(x: u64, s: Seq<Point>, w: int) -> Seq<u64> {
    Seq::new(w as nat, |k: int| block_sum(x, s, k * (s.len() as int / w), (k + 1) * (s.len() as int / w)))
}

/// The value of the partitioned evaluator under the floor-division policy.
pub open spec fn floor_parallel_value(x: u64, s: Seq<Point>, w: int) -> u64 {
    fold_partials(floor_partials(x, s, w))
}

/// The first outer index of worker `k` of `w` under the balanced policy:
/// the first `n % w` workers take `n/w + 1` indices, the rest take `n/w`.
pub open spec fn balanced_start(n: int, w: int, k: int) -> int {
    k * (n / w) + if k <= n % w { k } else { n % w }
}

/// The partial sums under the balanced policy.
pub open spec fn balanced_partials(x: u64, s: Seq<Point>, w: int) -> Seq<u64> {
    Seq::new(
        w as nat,
        |k: int| block_sum(
            x,
            s,
            balanced_start(s.len() as int, w, k),
            balanced_start(s.len() as int, w, k + 1),
        ),
    )
}

/// The value of the partitioned evaluator under the balanced policy.
pub open spec fn balanced_parallel_value(x: u64, s: Seq<Point>, w: int) -> u64 {
    fold_partials(balanced_partials(x, s, w))
}

/// Reduces the workers' partial results in worker-index order, starting
/// from the bit pattern of `+0.0`.
pub fn sum_partials(partials: &Vec<u64>) -> (r: u64)
    ensures
        r == fold_partials(partials@),
{
    let n = partials.len();
    let mut acc: u64 = 0;
    let mut k: usize = 0;
    while k < n
        invariant
            k <= n,
            n == partials@.len(),
            acc == fold_partials(partials@.take(k as int)),
        decreases n - k,
    {
        proof {
            assert(partials@.take(k as int + 1).drop_last() =~= partials@.take(k as int));
            assert(partials@.take(k as int + 1).last() == partials@[k as int]);
        }
        acc = add_bits(acc, partials[k]);
        k = k + 1;
    }
    proof {
        assert(partials@.take(n as int) =~= partials@);
    }
    acc
}

/// The partitioned evaluator under the floor-division policy of the
/// original fork-join split.
///
/// With `chunk = n / worker_count`, worker `k` covers the outer indices
/// `k*chunk .. (k+1)*chunk` and still reads the whole sample sequence in
/// its inner passes. When `worker_count` does not divide `n`, the
/// trailing `n % worker_count` outer indices belong to no block, so
/// their basis terms are silently left out of the gathered value; see
/// [`parallel_lagrange_interpolation_balanced`] for the policy that
/// keeps them.
pub fn parallel_lagrange_interpolation(x: u64, points: &Vec<Point>, worker_count: usize) -> (r: u64)
    requires
        1 <= worker_count,
    ensures
        r == floor_parallel_value(x, points@, worker_count as int),
{
    let n = points.len();
    let chunk_size = n / worker_count;
    let ghost gn = n as int;
    let ghost gw = worker_count as int;
    let ghost gc = gn / gw;
    proof {
        lemma_fundamental_div_mod(gn, gw);
        lemma_mod_bound(gn, gw);
        lemma_div_pos_is_pos(gn, gw);
    }
    let mut partials: Vec<u64> = Vec::new();
    let mut k: usize = 0;
    while k < worker_count
        invariant
            n == points@.len(),
            gn == n as int,
            gw == worker_count as int,
            1 <= gw,
            gc == gn / gw,
            0 <= gc,
            chunk_size as int == gc,
            gw * gc <= gn,
            k <= worker_count,
            partials@.len() == k as int,
            forall|m: int| 0 <= m < k as int
                ==> partials@[m] == block_sum(x, points@, m * gc, (m + 1) * gc),
        decreases worker_count - k,
    {
        proof {
            lemma_mul_inequality(0, k as int, gc);
            lemma_mul_inequality(k as int, k as int + 1, gc);
            lemma_mul_inequality(k as int + 1, gw, gc);
        }
        let lo = k * chunk_size;
        let hi = (k + 1) * chunk_size;
        let p = block_partial_sum(x, points, lo, hi);
        partials.push(p);
        k = k + 1;
    }
    proof {
        assert(partials@ =~= floor_partials(x, points@, gw));
    }
    sum_partials(&partials)
}

/// The partitioned evaluator under the balanced policy: the first
/// `n % worker_count` workers take `n/worker_count + 1` outer indices,
/// the rest take `n/worker_count`, so the blocks tile `0..n` exactly and
/// every sample contributes its basis term.
pub fn parallel_lagrange_interpolation_balanced(x: u64, points: &Vec<Point>, worker_count: usize) -> (r: u64)
    requires
        1 <= worker_count,
    ensures
        r == balanced_parallel_value(x, points@, worker_count as int),
{
    let n = points.len();
    let chunk_size = n / worker_count;
    let remainder = n % worker_count;
    let ghost gn = n as int;
    let ghost gw = worker_count as int;
    let ghost gc = gn / gw;
    let ghost grem = gn % gw;
    proof {
        lemma_fundamental_div_mod(gn, gw);
        lemma_mod_bound(gn, gw);
        lemma_div_pos_is_pos(gn, gw);
    }
    let mut partials: Vec<u64> = Vec::new();
    let mut lo: usize = 0;
    let mut k: usize = 0;
    while k < worker_count
        invariant
            n == points@.len(),
            gn == n as int,
            gw == worker_count as int,
            1 <= gw,
            gc == gn / gw,
            grem == gn % gw,
            0 <= gc,
            0 <= grem < gw,
            gn == gw * gc + grem,
            chunk_size as int == gc,
            remainder as int == grem,
            k <= worker_count,
            lo as int == balanced_start(gn, gw, k as int),
            lo <= n,
            partials@.len() == k as int,
            forall|m: int| 0 <= m < k as int
                ==> partials@[m] == block_sum(
                    x, points@, balanced_start(gn, gw, m), balanced_start(gn, gw, m + 1),
                ),
        decreases worker_count - k,
    {
        let extra: usize = if k < remainder { 1 } else { 0 };
        proof {
            assert((k as int + 1) * gc == k as int * gc + gc) by (nonlinear_arith);
            lemma_mul_inequality(k as int + 1, gw, gc);
        }
        let hi = lo + chunk_size + extra;
        assert(hi as int == balanced_start(gn, gw, k as int + 1));
        assert(hi <= n);
        let p = block_partial_sum(x, points, lo, hi);
        partials.push(p);
        lo = hi;
        k = k + 1;
    }
    proof {
        assert(partials@ =~= balanced_partials(x, points@, gw));
    }
    sum_partials(&partials)
}

/// The balanced blocks tile the index range exactly: they start at 0,
/// end at `n`, and are consecutive, each of size `n/w` or `n/w + 1`.
pub proof fn lemma_balanced_partition_covers(n: int, w: int)
    requires
        1 <= w,
        0 <= n,
    ensures
        balanced_start(n, w, 0) == 0,
        balanced_start(n, w, w) == n,
        forall|k: int| 0 <= k < w
            ==> #[trigger] balanced_start(n, w, k + 1) - balanced_start(n, w, k)
                == n / w + if k < n % w { 1int } else { 0int },
{
    lemma_fundamental_div_mod(n, w);
    lemma_mod_bound(n, w);
    lemma_div_pos_is_pos(n, w);
    assert(balanced_start(n, w, 0) == 0) by {
        assert(0 * (n / w) == 0) by (nonlinear_arith);
    }
    assert(balanced_start(n, w, w) == n) by {
        assert(w * (n / w) == (n / w) * w) by (nonlinear_arith);
    }
    assert forall|k: int| 0 <= k < w
        implies #[trigger] balanced_start(n, w, k + 1) - balanced_start(n, w, k)
            == n / w + if k < n % w { 1int } else { 0int } by {
        assert((k + 1) * (n / w) == k * (n / w) + n / w) by (nonlinear_arith);
    }
}

/// When the worker count divides the sample count evenly, the floor
/// blocks already tile `0..n`, and the two policies gather the same
/// value bit for bit.
pub proof fn lemma_divisible_partition_agrees(x: u64, s: Seq<Point>, w: int)
    requires
        1 <= w,
        s.len() as int % w == 0,
    ensures
        w * (s.len() as int / w) == s.len() as int,
        floor_parallel_value(x, s, w) == balanced_parallel_value(x, s, w),
{
    let n = s.len() as int;
    lemma_fundamental_div_mod(n, w);
    assert forall|k: int| 0 <= k < w
        implies #[trigger] balanced_start(n, w, k) == k * (n / w) by {
    }
    assert(floor_partials(x, s, w) =~= balanced_partials(x, s, w));
}

/// Under the floor-division policy, a dropped sample contributes no term
/// of its own: the gathered value is unchanged by the ordinates of the
/// samples at the trailing `n % w` indices. (Their abscissas still enter
/// every kept term through the full inner pass.)
pub proof fn lemma_floor_partition_ignores_dropped_y(x: u64, s1: Seq<Point>, s2: Seq<Point>, w: int)
    requires
        1 <= w,
        s1.len() == s2.len(),
        forall|j: int| 0 <= j < s1.len() ==> s1[j].x == s2[j].x,
        forall|i: int| 0 <= i < w * (s1.len() as int / w) ==> s1[i].y == s2[i].y,
    ensures
        floor_parallel_value(x, s1, w) == floor_parallel_value(x, s2, w),
{
    let n = s1.len() as int;
    let c = n / w;
    lemma_fundamental_div_mod(n, w);
    lemma_mod_bound(n, w);
    lemma_div_pos_is_pos(n, w);
    assert forall|k: int| 0 <= k < w
        implies #[trigger] floor_partials(x, s1, w)[k] == floor_partials(x, s2, w)[k] by {
        lemma_mul_inequality(0, k, c);
        lemma_mul_inequality(k, k + 1, c);
        lemma_mul_inequality(k + 1, w, c);
        lemma_block_sum_same(x, s1, s2, k * c, (k + 1) * c);
    }
    assert(floor_partials(x, s1, w) =~= floor_partials(x, s2, w));
}

} // verus!
