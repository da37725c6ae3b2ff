//! What the preparation of a point of the twisted curve and the Miller loop
//! compute, as functions of field values.

use crate::math::field::fq_inv;
use crate::math::tower::{
    fq12_conjugate, fq12_mul, fq12_one, fq12_sparse_014, fq12_square, fq2_add, fq2_double,
    fq2_mul, fq2_neg, fq2_one, fq2_scale, fq2_square, fq2_sub, Fq12Value, Fq2Value,
};
use crate::utils::constants::{loop_bit, BLS_X_IS_NEGATIVE};
use vstd::prelude::*;

verus! {

/// The coefficients of one line: the line through two points of the
/// twisted curve, waiting to be evaluated at a point of the base curve.
pub struct EllCoeffValue {
    pub c0: Fq2Value,
    pub c1: Fq2Value,
    pub c2: Fq2Value,
}

/// A point of the twisted curve in homogeneous projective coordinates.
pub struct G2ProjectiveValue {
    pub x: Fq2Value,
    pub y: Fq2Value,
    pub z: Fq2Value,
}

/// The constant term `4 + 4u` of the equation of the twisted curve.
pub open spec fn coeff_b() -> Fq2Value {
    Fq2Value { c0: 4, c1: 4 }
}

/// One half, as an element of the base field.
pub open spec fn two_inv() -> nat {
    fq_inv(2)
}

/// The point `2 r` after a doubling step.
pub open spec fn double_point(r: G2ProjectiveValue, half: nat) -> G2ProjectiveValue {
    let a = fq2_scale(fq2_mul(r.x, r.y), half);
    let b = fq2_square(r.y);
    let c = fq2_square(r.z);
    let e = fq2_mul(coeff_b(), fq2_add(fq2_double(c), c));
    let f = fq2_add(fq2_double(e), e);
    let g = fq2_scale(fq2_add(b, f), half);
    let h = fq2_sub(fq2_square(fq2_add(r.y, r.z)), fq2_add(b, c));
    let e_square = fq2_square(e);
    G2ProjectiveValue {
        x: fq2_mul(a, fq2_sub(b, f)),
        y: fq2_sub(fq2_square(g), fq2_add(fq2_double(e_square), e_square)),
        z: fq2_mul(b, h),
    }
}

/// The coefficients of the tangent at `r`, which a doubling step emits.
pub open spec fn double_coeff(r: G2ProjectiveValue) -> EllCoeffValue {
    let b = fq2_square(r.y);
    let c = fq2_square(r.z);
    let e = fq2_mul(coeff_b(), fq2_add(fq2_double(c), c));
    let h = fq2_sub(fq2_square(fq2_add(r.y, r.z)), fq2_add(b, c));
    let j = fq2_square(r.x);
    EllCoeffValue { c0: fq2_sub(e, b), c1: fq2_add(fq2_double(j), j), c2: fq2_neg(h) }
}

/// The point `r + q` after a mixed addition step with the affine point
/// `(qx, qy)`.
pub open spec fn add_point(r: G2ProjectiveValue, qx: Fq2Value, qy: Fq2Value) -> G2ProjectiveValue {
    let theta = fq2_sub(r.y, fq2_mul(qy, r.z));
    let lambda = fq2_sub(r.x, fq2_mul(qx, r.z));
    let c = fq2_square(theta);
    let d = fq2_square(lambda);
    let e = fq2_mul(lambda, d);
    let f = fq2_mul(r.z, c);
    let g = fq2_mul(r.x, d);
    let h = fq2_sub(fq2_add(e, f), fq2_double(g));
    G2ProjectiveValue {
        x: fq2_mul(lambda, h),
        y: fq2_sub(fq2_mul(theta, fq2_sub(g, h)), fq2_mul(e, r.y)),
        z: fq2_mul(r.z, e),
    }
}

/// The coefficients of the line through `r` and `(qx, qy)`, which an
/// addition step emits.
pub open spec fn add_coeff(r: G2ProjectiveValue, qx: Fq2Value, qy: Fq2Value) -> EllCoeffValue {
    let theta = fq2_sub(r.y, fq2_mul(qy, r.z));
    let lambda = fq2_sub(r.x, fq2_mul(qx, r.z));
    EllCoeffValue {
        c0: fq2_sub(fq2_mul(theta, qx), fq2_mul(lambda, qy)),
        c1: fq2_neg(theta),
        c2: lambda,
    }
}

/// The accumulator of the preparation of `(qx, qy)` after `n` steps of the
/// schedule: it starts at the point itself, is doubled at every step, and
/// has the point added where the bit of the step is set.
pub open spec fn prepare_point(qx: Fq2Value, qy: Fq2Value, n: nat) -> G2ProjectiveValue
    decreases n,
{
    if n == 0 {
        G2ProjectiveValue { x: qx, y: qy, z: fq2_one() }
    } else {
        let doubled = double_point(prepare_point(qx, qy, (n - 1) as nat), two_inv());
        if loop_bit(n - 1) {
            add_point(doubled, qx, qy)
        } else {
            doubled
        }
    }
}

/// The coefficients that the first `n` steps of the preparation emit, in
/// the order of the steps: one for each doubling, and after it one for the
/// addition where the bit of the step is set.
pub open spec fn prepare_coeffs(qx: Fq2Value, qy: Fq2Value, n: nat) -> Seq<EllCoeffValue>
    decreases n,
{
    if n == 0 {
        Seq::empty()
    } else {
        let before = prepare_point(qx, qy, (n - 1) as nat);
        let doubled = double_point(before, two_inv());
        let coeffs = prepare_coeffs(qx, qy, (n - 1) as nat).push(double_coeff(before));
        if loop_bit(n - 1) {
            coeffs.push(add_coeff(doubled, qx, qy))
        } else {
            coeffs
        }
    }
}

/// The number of coefficients that `n` steps of the schedule emit and
/// consume.
pub open spec fn consumed(n: nat) -> nat
    decreases n,
{
    if n == 0 {
        0
    } else {
        consumed((n - 1) as nat) + if loop_bit(n - 1) {
            2nat
        } else {
            1nat
        }
    }
}

/// A point of the base curve by its coordinates, with the coefficients
/// prepared from its partner on the twisted curve.
pub struct PairValue {
    pub px: nat,
    pub py: nat,
    pub coeffs: Seq<EllCoeffValue>,
}

/// The line with coefficients `c`, evaluated at the point `(px, py)`.
pub open spec fn line_value(c: EllCoeffValue, px: nat, py: nat) -> Fq12Value {
    fq12_sparse_014(c.c0, fq2_scale(c.c1, px), fq2_scale(c.c2, py))
}

/// One line evaluation folded into the accumulator `f`.
pub open spec fn ell_value(f: Fq12Value, c: EllCoeffValue, px: nat, py: nat) -> Fq12Value {
    fq12_mul(f, line_value(c, px, py))
}

/// The accumulator `f` after the first `k` pairs have each folded in their
/// coefficient number `index`.
pub open spec fn ell_pairs(f: Fq12Value, pairs: Seq<PairValue>, k: nat, index: int) -> Fq12Value
    decreases k,
{
    if k == 0 {
        f
    } else {
        let p = pairs[k - 1];
        ell_value(ell_pairs(f, pairs, (k - 1) as nat, index), p.coeffs[index], p.px, p.py)
    }
}

/// The accumulator of one batch of pairs after `n` steps of the schedule.
pub open spec fn miller_steps(pairs: Seq<PairValue>, n: nat) -> Fq12Value
    decreases n,
{
    if n == 0 {
        fq12_one()
    } else {
        let index = consumed((n - 1) as nat) as int;
        let squared = fq12_square(miller_steps(pairs, (n - 1) as nat));
        let doubled = ell_pairs(squared, pairs, pairs.len(), index);
        if loop_bit(n - 1) {
            ell_pairs(doubled, pairs, pairs.len(), index + 1)
        } else {
            doubled
        }
    }
}

/// The pairs of batch number `k`, where a batch holds `size` pairs and the
/// last one what is left.
pub open spec fn batch(pairs: Seq<PairValue>, size: nat, k: nat) -> Seq<PairValue> {
    let start = (k * size) as int;
    let end = if start + size <= pairs.len() {
        start + size
    } else {
        pairs.len() as int
    };
    pairs.subrange(start, end)
}

/// The number of batches of `size` pairs that `len` pairs make.
pub open spec fn batch_count(len: nat, size: nat) -> nat {
    if size == 0 {
        0
    } else {
        ((len + size - 1) / (size as int)) as nat
    }
}

/// The product of the accumulators of the first `k` batches after all
/// `steps` steps, taken in the order of the batches.
pub open spec fn batches_product(pairs: Seq<PairValue>, size: nat, steps: nat, k: nat) -> Fq12Value
    decreases k,
{
    if k == 0 {
        fq12_one()
    } else {
        fq12_mul(
            batches_product(pairs, size, steps, (k - 1) as nat),
            miller_steps(batch(pairs, size, (k - 1) as nat), steps),
        )
    }
}

/// The value of the Miller loop over `pairs`, evaluated in batches of
/// `size` pairs: the product over the batches, conjugated because the curve
/// parameter is negative. No final exponentiation is applied.
pub open spec fn miller_loop_value(pairs: Seq<PairValue>, size: nat, steps: nat) -> Fq12Value {
    let product = batches_product(pairs, size, steps, batch_count(pairs.len(), size));
    if BLS_X_IS_NEGATIVE {
        fq12_conjugate(product)
    } else {
        product
    }
}

/// The pairs among the first `n` entries of `pairs` that are there, in
/// their order. An entry that is not there stands for a pair with a point
/// at infinity on either side.
pub open spec fn finite_pairs(pairs: Seq<Option<PairValue>>, n: nat) -> Seq<PairValue>
    decreases n,
{
    if n == 0 {
        Seq::empty()
    } else {
        let rest = finite_pairs(pairs, (n - 1) as nat);
        match pairs[n - 1] {
            Some(pair) => rest.push(pair),
            None => rest,
        }
    }
}

/// The value of the Miller loop over `pairs`, of which those with a point
/// at infinity are left out, in batches of `size` pairs.
pub open spec fn multi_miller_loop_value(pairs: Seq<Option<PairValue>>, size: nat, steps: nat)
    -> Fq12Value {
    miller_loop_value(finite_pairs(pairs, pairs.len()), size, steps)
}

/// The finite pairs among the first `n` depend on the first `n` entries
/// only.
pub proof fn lemma_finite_pairs_prefix(
    pairs: Seq<Option<PairValue>>,
    others: Seq<Option<PairValue>>,
    n: nat,
)
    requires
        n <= pairs.len(),
        n <= others.len(),
        forall|i: int| 0 <= i < n ==> pairs[i] == others[i],
    ensures
        finite_pairs(pairs, n) == finite_pairs(others, n),
    decreases n,
{
    if n > 0 {
        lemma_finite_pairs_prefix(pairs, others, (n - 1) as nat);
    }
}

/// A pair with a point at infinity can be taken out of the list: the
/// finite pairs stay the same.
pub proof fn lemma_finite_pairs_remove(pairs: Seq<Option<PairValue>>, i: int, n: nat)
    requires
        0 <= i < n <= pairs.len(),
        pairs[i] is None,
    ensures
        finite_pairs(pairs.remove(i), (n - 1) as nat) == finite_pairs(pairs, n),
    decreases n,
{
    let removed = pairs.remove(i);
    if n - 1 == i {
        lemma_finite_pairs_prefix(removed, pairs, i as nat);
    } else {
        lemma_finite_pairs_remove(pairs, i, (n - 1) as nat);
        assert(removed[n - 2] == pairs[n - 1]);
    }
}

/// A pair with a point at infinity contributes the factor one: the value
/// of the loop over a list with such a pair is the value over the list
/// without it.
pub proof fn lemma_pair_at_infinity_contributes_nothing(
    pairs: Seq<Option<PairValue>>,
    i: int,
    size: nat,
    steps: nat,
)
    requires
        0 <= i < pairs.len(),
        pairs[i] is None,
    ensures
        multi_miller_loop_value(pairs.remove(i), size, steps) == multi_miller_loop_value(
            pairs,
            size,
            steps,
        ),
{
    lemma_finite_pairs_remove(pairs, i, pairs.len());
}

/// No more than two coefficients go with a step.
pub proof fn lemma_consumed_bound(n: nat)
    ensures
        n <= consumed(n) <= 2 * n,
    decreases n,
{
    if n > 0 {
        lemma_consumed_bound((n - 1) as nat);
    }
}

/// The count of coefficients grows with the steps.
pub proof fn lemma_consumed_monotonic(m: nat, n: nat)
    requires
        m <= n,
    ensures
        consumed(m) <= consumed(n),
    decreases n,
{
    if m < n {
        lemma_consumed_monotonic(m, (n - 1) as nat);
    }
}

/// The preparation emits as many coefficients as the loop consumes.
pub proof fn lemma_prepare_coeffs_len(qx: Fq2Value, qy: Fq2Value, n: nat)
    ensures
        prepare_coeffs(qx, qy, n).len() == consumed(n),
    decreases n,
{
    if n > 0 {
        lemma_prepare_coeffs_len(qx, qy, (n - 1) as nat);
    }
}

} // verus!
