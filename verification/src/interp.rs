//! The sequential Lagrange evaluator.
//!
//! `lagrange_interpolation` computes, for a query point `x` and samples
//! `(x_0, y_0), ..., (x_{n-1}, y_{n-1})`, the sum over `i` of the basis
//! terms `y_i * prod_{j != i} (x - x_j) / (x_i - x_j)`, with one running
//! accumulator for the sum and one running product per term, exactly in
//! that operation order. The spec functions in this module pin down the
//! resulting bit pattern as a fold over the uninterpreted arithmetic of
//! [`crate::arith`].

use vstd::prelude::*;
use crate::arith::{add_bits_of, sub_bits_of, mul_bits_of, div_bits_of};
use crate::arith::{add_bits, sub_bits, mul_bits, div_bits};

verus! {

/// One sample the interpolant must pass through: the binary64 bit
/// patterns of its abscissa `x` and its ordinate `y`.
#[derive(Clone, Copy, PartialEq, Eq, Structural, Debug)]
pub struct Point {
    pub x: u64,
    pub y: u64,
}

/// The factor `(x - xj) / (xi - xj)` of the basis term of sample `i`.
pub open spec fn basis_factor(x: u64, xi: u64, xj: u64) -> u64 {
    div_bits_of(sub_bits_of(x, xj), sub_bits_of(xi, xj))
}

/// The running product of the basis term of sample `i` after the factors
/// of samples `j < k`, `j != i`, have been multiplied in: the product
/// starts from `y_i` and picks up one `basis_factor` per other sample.
pub open spec fn term_after(x: u64, s: Seq<Point>, i: int, k: int) -> u64
    decreases k,
{
    if k <= 0 {
        s[i].y
    } else if k - 1 == i {
        term_after(x, s, i, k - 1)
    } else {
        mul_bits_of(term_after(x, s, i, k - 1), basis_factor(x, s[i].x, s[k - 1].x))
    }
}

/// The complete basis term of sample `i`:
/// `y_i * prod_{j != i} (x - x_j) / (x_i - x_j)`.
pub open spec fn term(x: u64, s: Seq<Point>, i: int) -> u64 {
    term_after(x, s, i, s.len() as int)
}

/// The running sum of the basis terms of samples `lo..hi`, accumulated in
/// index order from the bit pattern of `+0.0` (the empty-sum identity).
pub open spec fn block_sum(x: u64, s: Seq<Point>, lo: int, hi: int) -> u64
    decreases hi - lo,
{
    if hi <= lo {
        0u64
    } else {
        add_bits_of(block_sum(x, s, lo, hi - 1), term(x, s, hi - 1))
    }
}

/// The value of the sequential evaluator: every sample plays the outer
/// role once, in index order.
pub open spec fn interpolant_value(x: u64, s: Seq<Point>) -> u64 {
    block_sum(x, s, 0, s.len() as int)
}

/// The basis term of sample `i`, built by one pass over all samples.
pub fn basis_term(x: u64, points: &Vec<Point>, i: usize) -> (r: u64)
    requires
        i < points@.len(),
    ensures
        r == term(x, points@, i as int),
{
    let n = points.len();
    let mut t: u64 = points[i].y;
    let mut j: usize = 0;
    while j < n
        invariant
            i < points@.len(),
            n == points@.len(),
            j <= n,
            t == term_after(x, points@, i as int, j as int),
        decreases n - j,
    {
        if i != j {
            let num = sub_bits(x, points[j].x);
            let den = sub_bits(points[i].x, points[j].x);
            t = mul_bits(t, div_bits(num, den));
        }
        j = j + 1;
    }
    t
}

/// The running sum of the basis terms of the outer indices `lo..hi`,
/// starting from the bit pattern of `+0.0`. This is the whole work of one
/// worker of the partitioned evaluator, and of the sequential evaluator
/// for `lo == 0`, `hi == n`.
pub fn block_partial_sum(x: u64, points: &Vec<Point>, lo: usize, hi: usize) -> (r: u64)
    requires
        lo <= hi <= points@.len(),
    ensures
        r == block_sum(x, points@, lo as int, hi as int),
{
    let mut acc: u64 = 0;
    let mut i: usize = lo;
    while i < hi
        invariant
            lo <= i <= hi <= points@.len(),
            acc == block_sum(x, points@, lo as int, i as int),
        decreases hi - i,
    {
        let t = basis_term(x, points, i);
        acc = add_bits(acc, t);
        i = i + 1;
    }
    acc
}

/// The sequential Lagrange evaluator.
///
/// The result is pinned to a spec function of the query point and the
/// samples alone, so two calls on identical inputs return bit-identical
/// values. An empty sample sequence yields the bit pattern of `+0.0` (the
/// empty-sum convention); distinctness of the abscissas is not checked
/// here, and a collision surfaces as a non-finite bit pattern in the
/// result, exactly as the arithmetic produces it.
pub fn lagrange_interpolation(x: u64, points: &Vec<Point>) -> (r: u64)
    ensures
        r == interpolant_value(x, points@),
{
    let n = points.len();
    block_partial_sum(x, points, 0, n)
}

/// Two samples share an abscissa bit pattern: the precondition violation
/// that makes a basis denominator `x_i - x_j` zero.
pub open spec fn spec_has_duplicate_x(s: Seq<Point>) -> bool {
    exists|a: int, b: int| 0 <= a < b < s.len() && s[a].x == s[b].x
}

/// Fail-fast validation of the caller's distinctness obligation: reports
/// whether two samples carry the same abscissa bit pattern. (The two zero
/// bit patterns count as distinct here even though both denote zero.)
pub fn has_duplicate_abscissa(points: &Vec<Point>) -> (r: bool)
    ensures
        r == spec_has_duplicate_x(points@),
{
    let n = points.len();
    let mut i: usize = 0;
    while i < n
        invariant
            i <= n,
            n == points@.len(),
            forall|a: int, b: int|
                0 <= a < b < points@.len() && a < i as int ==> points@[a].x != points@[b].x,
        decreases n - i,
    {
        let mut j: usize = i + 1;
        while j < n
            invariant
                i < n,
                i < j <= n,
                n == points@.len(),
                forall|b: int| (i as int) < b < (j as int) ==> points@[i as int].x != points@[b].x,
            decreases n - j,
        {
            if points[i].x == points[j].x {
                proof {
                    let ga = i as int;
                    let gb = j as int;
                    assert(0 <= ga < gb < points@.len() && points@[ga].x == points@[gb].x);
                }
                return true;
            }
            j = j + 1;
        }
        i = i + 1;
    }
    false
}

/// The empty sample sequence evaluates to the bit pattern of `+0.0`, the
/// identity of the empty sum; this is documented behaviour, not an error.
pub proof fn lemma_empty_interpolant(x: u64, s: Seq<Point>)
    requires
        s.len() == 0,
    ensures
        interpolant_value(x, s) == 0u64,
{
}

/// A single sample yields the constant interpolant: the result is the
/// sample's ordinate folded onto the zero accumulator, independent of the
/// query point.
pub proof fn lemma_single_sample_constant(x1: u64, x2: u64, s: Seq<Point>)
    requires
        s.len() == 1,
    ensures
        interpolant_value(x1, s) == add_bits_of(0u64, s[0].y),
        interpolant_value(x1, s) == interpolant_value(x2, s),
{
    assert(term_after(x1, s, 0, 0) == s[0].y);
    assert(term_after(x2, s, 0, 0) == s[0].y);
    assert(term_after(x1, s, 0, 1) == s[0].y);
    assert(term_after(x2, s, 0, 1) == s[0].y);
    assert(block_sum(x1, s, 0, 1) == add_bits_of(block_sum(x1, s, 0, 0), term(x1, s, 0)));
    assert(block_sum(x2, s, 0, 1) == add_bits_of(block_sum(x2, s, 0, 0), term(x2, s, 0)));
}

/// Basis terms read a sample's ordinate only at their own outer index:
/// with equal abscissas everywhere and an equal ordinate at `i`, the term
/// of `i` is the same in both sample sequences.
pub proof fn lemma_term_after_same(x: u64, s1: Seq<Point>, s2: Seq<Point>, i: int, k: int)
    requires
        s1.len() == s2.len(),
        forall|j: int| 0 <= j < s1.len() ==> s1[j].x == s2[j].x,
        0 <= i < s1.len(),
        s1[i].y == s2[i].y,
        k <= s1.len(),
    ensures
        term_after(x, s1, i, k) == term_after(x, s2, i, k),
    decreases k,
{
    if k > 0 {
        lemma_term_after_same(x, s1, s2, i, k - 1);
    }
}

/// A block's running sum reads ordinates only at its own outer indices.
pub proof fn lemma_block_sum_same(x: u64, s1: Seq<Point>, s2: Seq<Point>, lo: int, hi: int)
    requires
        s1.len() == s2.len(),
        forall|j: int| 0 <= j < s1.len() ==> s1[j].x == s2[j].x,
        0 <= lo,
        hi <= s1.len(),
        forall|i: int| lo <= i < hi ==> s1[i].y == s2[i].y,
    ensures
        block_sum(x, s1, lo, hi) == block_sum(x, s2, lo, hi),
    decreases hi - lo,
{
    if hi > lo {
        lemma_block_sum_same(x, s1, s2, lo, hi - 1);
        lemma_term_after_same(x, s1, s2, hi - 1, s1.len() as int);
    }
}

} // verus!
