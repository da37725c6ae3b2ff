//! The value of the Miller loop does not depend on the batches in which its
//! pairs are taken.
//!
//! An accumulator is the product of the accumulators of its parts: the
//! square of a product is the product of the squares, and the lines of all
//! pairs folded into a product can be folded into its factors, each pair
//! into the factor of its part. Both rest on the product of the duodecimal
//! extension being associative and commutative.

use crate::math::formulas::lemma_fq12_one_left;
use crate::math::pairing::{
    batch, batch_count, batches_product, consumed, ell_pairs, lemma_consumed_monotonic,
    line_value, miller_loop_value, miller_steps, PairValue,
};
use crate::math::ring::{
    lemma_fq12_mul_associative, lemma_fq12_mul_canonical, lemma_fq12_mul_commutative,
    lemma_fq12_mul_interchange,
};
use crate::math::field::lemma_ops_canonical;
use crate::math::tower::{fq12_canonical, fq12_mul, fq12_one, fq2_canonical, Fq12Value};
use crate::utils::constants::loop_bit;
use vstd::arithmetic::div_mod::{lemma_fundamental_div_mod, lemma_mod_bound};
use vstd::prelude::*;

verus! {

/// The pair has a coefficient for each of the first `count` lines, of which
/// the part that enters a line as it is is canonical.
pub open spec fn pair_prepared(pair: PairValue, count: nat) -> bool {
    &&& count <= pair.coeffs.len()
    &&& forall|i: int| 0 <= i < count ==> fq2_canonical((#[trigger] pair.coeffs[i]).c0)
}

pub open spec fn pairs_prepared(pairs: Seq<PairValue>, count: nat) -> bool {
    forall|i: int| 0 <= i < pairs.len() ==> pair_prepared(#[trigger] pairs[i], count)
}

/// The product of the lines number `index` of the first `k` pairs.
pub open spec fn lines(pairs: Seq<PairValue>, k: nat, index: int) -> Fq12Value {
    ell_pairs(fq12_one(), pairs, k, index)
}

/// One is neutral on the right.
proof fn lemma_one_right(a: Fq12Value)
    requires
        fq12_canonical(a),
    ensures
        fq12_mul(a, fq12_one()) == a,
{
    lemma_fq12_one_left(a);
    lemma_fq12_mul_commutative(a, fq12_one());
}

/// A line is a canonical element.
proof fn lemma_line_canonical(pairs: Seq<PairValue>, count: nat, j: int, index: int)
    requires
        pairs_prepared(pairs, count),
        0 <= j < pairs.len(),
        0 <= index < count,
    ensures
        fq12_canonical(line_value(pairs[j].coeffs[index], pairs[j].px, pairs[j].py)),
{
    lemma_ops_canonical();
    assert(pair_prepared(pairs[j], count));
}

/// Lines folded into an accumulator give a canonical element.
proof fn lemma_ell_pairs_canonical(f: Fq12Value, pairs: Seq<PairValue>, k: nat, index: int)
    requires
        fq12_canonical(f),
    ensures
        fq12_canonical(ell_pairs(f, pairs, k, index)),
{
    if k > 0 {
        let p = pairs[k - 1];
        lemma_fq12_mul_canonical(
            ell_pairs(f, pairs, (k - 1) as nat, index),
            line_value(p.coeffs[index], p.px, p.py),
        );
    }
}

/// An accumulator is a canonical element.
proof fn lemma_miller_steps_canonical(pairs: Seq<PairValue>, n: nat)
    ensures
        fq12_canonical(miller_steps(pairs, n)),
    decreases n,
{
    if n > 0 {
        let m = miller_steps(pairs, (n - 1) as nat);
        let index = consumed((n - 1) as nat) as int;
        lemma_fq12_mul_canonical(m, m);
        lemma_ell_pairs_canonical(fq12_mul(m, m), pairs, pairs.len(), index);
        lemma_ell_pairs_canonical(
            ell_pairs(fq12_mul(m, m), pairs, pairs.len(), index),
            pairs,
            pairs.len(),
            index + 1,
        );
    }
}

/// The lines of the first `k` pairs depend on those pairs only.
proof fn lemma_ell_pairs_prefix(
    f: Fq12Value,
    pairs: Seq<PairValue>,
    others: Seq<PairValue>,
    k: nat,
    index: int,
)
    requires
        k <= pairs.len(),
        k <= others.len(),
        forall|j: int| 0 <= j < k ==> pairs[j] == others[j],
    ensures
        ell_pairs(f, pairs, k, index) == ell_pairs(f, others, k, index),
    decreases k,
{
    if k > 0 {
        lemma_ell_pairs_prefix(f, pairs, others, (k - 1) as nat, index);
    }
}

/// Lines folded into an accumulator multiply it by their product.
proof fn lemma_ell_pairs_is_product(
    f: Fq12Value,
    pairs: Seq<PairValue>,
    count: nat,
    k: nat,
    index: int,
)
    requires
        fq12_canonical(f),
        pairs_prepared(pairs, count),
        k <= pairs.len(),
        0 <= index < count,
    ensures
        ell_pairs(f, pairs, k, index) == fq12_mul(f, lines(pairs, k, index)),
    decreases k,
{
    if k == 0 {
        lemma_one_right(f);
    } else {
        let p = pairs[k - 1];
        let line = line_value(p.coeffs[index], p.px, p.py);
        let before = lines(pairs, (k - 1) as nat, index);
        lemma_ell_pairs_is_product(f, pairs, count, (k - 1) as nat, index);
        lemma_line_canonical(pairs, count, k - 1, index);
        lemma_ell_pairs_canonical(fq12_one(), pairs, (k - 1) as nat, index);
        lemma_fq12_mul_associative(f, before, line);
    }
}

/// The product of the lines of two lists of pairs, one after the other, is
/// the product of the products of each.
proof fn lemma_lines_of_concatenation(
    p: Seq<PairValue>,
    q: Seq<PairValue>,
    count: nat,
    j: nat,
    index: int,
)
    requires
        pairs_prepared(p, count),
        pairs_prepared(q, count),
        j <= q.len(),
        0 <= index < count,
    ensures
        lines(p + q, p.len() + j, index) == fq12_mul(
            lines(p, p.len(), index),
            lines(q, j, index),
        ),
    decreases j,
{
    lemma_ell_pairs_canonical(fq12_one(), p, p.len(), index);
    if j == 0 {
        lemma_ell_pairs_prefix(fq12_one(), p + q, p, p.len(), index);
        lemma_one_right(lines(p, p.len(), index));
    } else {
        lemma_lines_of_concatenation(p, q, count, (j - 1) as nat, index);
        let pair = q[j - 1];
        assert((p + q)[p.len() + j - 1] == pair);
        let line = line_value(pair.coeffs[index], pair.px, pair.py);
        lemma_line_canonical(q, count, j - 1, index);
        lemma_ell_pairs_canonical(fq12_one(), q, (j - 1) as nat, index);
        lemma_fq12_mul_associative(
            lines(p, p.len(), index),
            lines(q, (j - 1) as nat, index),
            line,
        );
    }
}

/// Folding the lines of two lists of pairs into a product folds the lines
/// of each list into one factor.
proof fn lemma_ell_pairs_of_concatenation(
    f: Fq12Value,
    g: Fq12Value,
    p: Seq<PairValue>,
    q: Seq<PairValue>,
    count: nat,
    index: int,
)
    requires
        fq12_canonical(f),
        fq12_canonical(g),
        pairs_prepared(p, count),
        pairs_prepared(q, count),
        0 <= index < count,
    ensures
        ell_pairs(fq12_mul(f, g), p + q, (p + q).len(), index) == fq12_mul(
            ell_pairs(f, p, p.len(), index),
            ell_pairs(g, q, q.len(), index),
        ),
{
    let both = p + q;
    assert(pairs_prepared(both, count)) by {
        assert forall|i: int| 0 <= i < both.len() implies pair_prepared(
            #[trigger] both[i],
            count,
        ) by {
            if i < p.len() {
                assert(both[i] == p[i]);
            } else {
                assert(both[i] == q[i - p.len()]);
            }
        }
    }
    lemma_fq12_mul_canonical(f, g);
    lemma_ell_pairs_is_product(fq12_mul(f, g), both, count, both.len(), index);
    lemma_lines_of_concatenation(p, q, count, q.len(), index);
    lemma_ell_pairs_canonical(fq12_one(), p, p.len(), index);
    lemma_ell_pairs_canonical(fq12_one(), q, q.len(), index);
    lemma_fq12_mul_interchange(f, g, lines(p, p.len(), index), lines(q, q.len(), index));
    lemma_ell_pairs_is_product(f, p, count, p.len(), index);
    lemma_ell_pairs_is_product(g, q, count, q.len(), index);
}

/// The accumulator of two lists of pairs, one after the other, is the
/// product of the accumulators of each.
pub proof fn lemma_miller_steps_of_concatenation(
    p: Seq<PairValue>,
    q: Seq<PairValue>,
    steps: nat,
    n: nat,
)
    requires
        n <= steps,
        pairs_prepared(p, consumed(steps)),
        pairs_prepared(q, consumed(steps)),
    ensures
        miller_steps(p + q, n) == fq12_mul(miller_steps(p, n), miller_steps(q, n)),
    decreases n,
{
    if n == 0 {
        lemma_fq12_one_left(fq12_one());
    } else {
        let m = (n - 1) as nat;
        lemma_miller_steps_of_concatenation(p, q, steps, m);
        lemma_consumed_monotonic(n, steps);
        let count = consumed(steps);
        let index = consumed(m) as int;
        let (fp, fq) = (miller_steps(p, m), miller_steps(q, m));
        lemma_miller_steps_canonical(p, m);
        lemma_miller_steps_canonical(q, m);
        lemma_fq12_mul_interchange(fp, fq, fp, fq);
        let (sp, sq) = (fq12_mul(fp, fp), fq12_mul(fq, fq));
        lemma_fq12_mul_canonical(fp, fp);
        lemma_fq12_mul_canonical(fq, fq);
        lemma_ell_pairs_of_concatenation(sp, sq, p, q, count, index);
        if loop_bit(n - 1) {
            let dp = ell_pairs(sp, p, p.len(), index);
            let dq = ell_pairs(sq, q, q.len(), index);
            lemma_ell_pairs_canonical(sp, p, p.len(), index);
            lemma_ell_pairs_canonical(sq, q, q.len(), index);
            lemma_ell_pairs_of_concatenation(dp, dq, p, q, count, index + 1);
        }
    }
}

/// The accumulator of no pairs is one.
proof fn lemma_miller_steps_of_nothing(n: nat)
    ensures
        miller_steps(Seq::<PairValue>::empty(), n) == fq12_one(),
    decreases n,
{
    if n > 0 {
        lemma_miller_steps_of_nothing((n - 1) as nat);
        lemma_fq12_one_left(fq12_one());
    }
}

/// The number of pairs in the first `k` batches of `size`.
pub open spec fn batched(len: nat, size: nat, k: nat) -> nat {
    if k * size <= len {
        k * size
    } else {
        len
    }
}

/// The product of the accumulators of the first `k` batches is the
/// accumulator of the pairs in them, taken as one batch.
pub proof fn lemma_batches_are_one_batch(pairs: Seq<PairValue>, size: nat, steps: nat, k: nat)
    requires
        size > 0,
        pairs_prepared(pairs, consumed(steps)),
        k == 0 || (k - 1) * size < pairs.len(),
    ensures
        batches_product(pairs, size, steps, k) == miller_steps(
            pairs.take(batched(pairs.len(), size, k) as int),
            steps,
        ),
    decreases k,
{
    if k == 0 {
        assert(pairs.take(0) =~= Seq::<PairValue>::empty());
        lemma_miller_steps_of_nothing(steps);
    } else {
        let j = (k - 1) as nat;
        assert(j * size + size == k * size) by (nonlinear_arith)
            requires
                j == k - 1,
        ;
        if j > 0 {
            assert((j - 1) * size < j * size) by (nonlinear_arith)
                requires
                    size > 0,
            ;
        }
        lemma_batches_are_one_batch(pairs, size, steps, j);
        let done = pairs.take((j * size) as int);
        let next = batch(pairs, size, j);
        let end = batched(pairs.len(), size, k) as int;
        assert(done + next =~= pairs.take(end));
        assert(pairs_prepared(done, consumed(steps))) by {
            assert forall|i: int| 0 <= i < done.len() implies pair_prepared(
                #[trigger] done[i],
                consumed(steps),
            ) by {
                assert(done[i] == pairs[i]);
            }
        }
        assert(pairs_prepared(next, consumed(steps))) by {
            assert forall|i: int| 0 <= i < next.len() implies pair_prepared(
                #[trigger] next[i],
                consumed(steps),
            ) by {
                assert(next[i] == pairs[j * size + i]);
            }
        }
        lemma_miller_steps_of_concatenation(done, next, steps, steps);
    }
}

/// The batches of `size` cover all `len` pairs, and the last one is not
/// empty.
proof fn lemma_batch_count(len: nat, size: nat)
    requires
        size > 0,
    ensures
        batch_count(len, size) * size >= len,
        batch_count(len, size) == 0 || (batch_count(len, size) - 1) * size < len,
{
    let x = (len + size - 1) as int;
    let d = size as int;
    lemma_fundamental_div_mod(x, d);
    lemma_mod_bound(x, d);
    let k = x / d;
    assert(k == batch_count(len, size));
    assert(d * k == k * d) by (nonlinear_arith);
    assert((k - 1) * d == k * d - d) by (nonlinear_arith);
    if k < 0 {
        assert(k * d <= -d) by (nonlinear_arith)
            requires
                k <= -1,
                d > 0,
        ;
    }
}

/// The value of the Miller loop is that of all pairs taken as one batch,
/// whatever the size of the batches.
pub proof fn lemma_batches_do_not_matter(pairs: Seq<PairValue>, size: nat, steps: nat)
    requires
        size > 0,
        pairs_prepared(pairs, consumed(steps)),
    ensures
        batches_product(pairs, size, steps, batch_count(pairs.len(), size)) == miller_steps(
            pairs,
            steps,
        ),
{
    let k = batch_count(pairs.len(), size);
    lemma_batch_count(pairs.len(), size);
    lemma_batches_are_one_batch(pairs, size, steps, k);
    assert(pairs.take(pairs.len() as int) =~= pairs);
}

/// Batch invariance: the Miller loop over the same pairs has the same
/// value with batches of one size as with batches of another.
pub proof fn lemma_batch_invariance(pairs: Seq<PairValue>, size: nat, other: nat, steps: nat)
    requires
        size > 0,
        other > 0,
        pairs_prepared(pairs, consumed(steps)),
    ensures
        miller_loop_value(pairs, size, steps) == miller_loop_value(pairs, other, steps),
{
    lemma_batches_do_not_matter(pairs, size, steps);
    lemma_batches_do_not_matter(pairs, other, steps);
}

} // verus!
