//! The Miller loop in circuit form.

use crate::circuit::builder::{appends_arithmetic, satisfies, CircuitBuilder, Gate};
use crate::curves::g1::{G1AffineTarget, G1PreparedTarget};
use crate::curves::g2::{
    coeff_target_value, coeff_targets_value, coeff_valid, coeffs_valid, EllCoeffTarget,
    G2PreparedTarget,
};
use crate::fields::fq12_target::{values, Fq12Target};
use crate::math::pairing::{
    batch, batch_count, batches_product, consumed, ell_pairs, ell_value, finite_pairs,
    lemma_consumed_bound, lemma_consumed_monotonic, miller_steps, multi_miller_loop_value,
    PairValue,
};
use crate::math::tower::{fq12_product, Fq12Value};
use crate::native::fields::Fq12;
use crate::native::miller_loop::{zip_eq, BATCH_SIZE};
use crate::utils::constants::{loop_bit_at, BLS_X_IS_NEGATIVE, LOOP_STEPS};
use vstd::prelude::*;

verus! {

/// The two sides of a pair are both finite points.
pub open spec fn survives(p: G1PreparedTarget, q: G2PreparedTarget) -> bool {
    !p.0.infinity && !q.infinity
}

/// What the Miller loop reads of a pair, under the values `w`.
pub open spec fn pair_value(p: G1PreparedTarget, coeffs: Seq<EllCoeffTarget>, w: Seq<nat>)
    -> PairValue {
    PairValue { px: p.0.x.value(w), py: p.0.y.value(w), coeffs: coeff_targets_value(coeffs, w) }
}

/// What the Miller loop reads of the pair `(p, q)` under the values `w`:
/// nothing, where either is the point at infinity.
pub open spec fn target_pair(p: G1PreparedTarget, q: G2PreparedTarget, w: Seq<nat>) -> Option<
    PairValue,
> {
    if survives(p, q) {
        Some(pair_value(p, q.ell_coeffs@, w))
    } else {
        None
    }
}

/// What the Miller loop reads of the pairs `(a[i], b[i])` under the values
/// `w`.
pub open spec fn target_pairs(a: Seq<G1PreparedTarget>, b: Seq<G2PreparedTarget>, w: Seq<nat>)
    -> Seq<Option<PairValue>> {
    Seq::new(a.len(), |i: int| target_pair(a[i], b[i], w))
}

/// A pair that takes part in the loop: a finite point, and a coefficient
/// for every line, all on wires of the circuit.
pub open spec fn prepared_pair_valid(
    pair: (G1PreparedTarget, Vec<EllCoeffTarget>),
    gates: Seq<Gate>,
) -> bool {
    &&& !pair.0.0.infinity
    &&& pair.0.0.valid(gates)
    &&& pair.1@.len() == consumed(LOOP_STEPS as nat)
    &&& coeffs_valid(pair.1@, gates)
}

pub open spec fn prepared_pairs_valid(
    pairs: Seq<(G1PreparedTarget, Vec<EllCoeffTarget>)>,
    gates: Seq<Gate>,
) -> bool {
    forall|i: int| 0 <= i < pairs.len() ==> prepared_pair_valid(#[trigger] pairs[i], gates)
}

pub open spec fn prepared_pairs_value(
    pairs: Seq<(G1PreparedTarget, Vec<EllCoeffTarget>)>,
    w: Seq<nat>,
) -> Seq<PairValue> {
    Seq::new(pairs.len(), |i: int| pair_value(pairs[i].0, pairs[i].1@, w))
}

/// The pairs of which both sides are finite, each with the wires of the
/// coefficients of its lines.
fn getter_of_prepared_pairs(
    a: Vec<G1PreparedTarget>,
    b: Vec<G2PreparedTarget>,
    Ghost(gates): Ghost<Seq<Gate>>,
) -> (r: Vec<(G1PreparedTarget, Vec<EllCoeffTarget>)>)
    requires
        a.len() == b.len(),
        forall|i: int| 0 <= i < a.len() ==> (#[trigger] a[i]).0.valid(gates) && b[i].valid(gates),
    ensures
        forall|w: Seq<nat>| #[trigger]
            prepared_pairs_value(r@, w) == finite_pairs(target_pairs(a@, b@, w), a.len() as nat),
        prepared_pairs_valid(r@, gates),
{
    let ghost (a0, b0) = (a@, b@);
    let zipped = zip_eq(a, b);
    let ghost n = zipped.len();
    let mut pairs: Vec<(G1PreparedTarget, Vec<EllCoeffTarget>)> = Vec::new();
    assert forall|w: Seq<nat>| #[trigger]
        prepared_pairs_value(pairs@, w) == finite_pairs(target_pairs(a0, b0, w), 0) by {
        assert(prepared_pairs_value(pairs@, w) =~= Seq::empty());
    }
    for pq in it: zipped
        invariant
            n == a0.len() == b0.len(),
            it.seq().len() == n,
            forall|i: int|
                0 <= i < n ==> (#[trigger] it.seq()[i]).0 == a0[i] && it.seq()[i].1 == b0[i],
            forall|i: int| 0 <= i < n ==> (#[trigger] a0[i]).0.valid(gates) && b0[i].valid(gates),
            forall|w: Seq<nat>| #[trigger]
                prepared_pairs_value(pairs@, w) == finite_pairs(
                    target_pairs(a0, b0, w),
                    it.index() as nat,
                ),
            prepared_pairs_valid(pairs@, gates),
    {
        let ghost k = it.index();
        let ghost before = pairs@;
        let (p, q) = pq;
        assert(p == a0[k] && q == b0[k]);
        assert(a0[k].0.valid(gates) && b0[k].valid(gates));
        if !p.0.is_zero() && !q.is_zero() {
            pairs.push((p, q.ell_coeffs));
            proof {
                assert forall|w: Seq<nat>| #[trigger]
                    prepared_pairs_value(pairs@, w) == finite_pairs(
                        target_pairs(a0, b0, w),
                        (k + 1) as nat,
                    ) by {
                    assert(prepared_pairs_value(pairs@, w) =~= prepared_pairs_value(before, w).push(
                        pair_value(p, q.ell_coeffs@, w),
                    ));
                }
                assert forall|i: int| 0 <= i < pairs@.len() implies prepared_pair_valid(
                    #[trigger] pairs@[i],
                    gates,
                ) by {
                    if i < before.len() {
                        assert(pairs@[i] == before[i]);
                    }
                }
            }
        }
    }
    pairs
}

/// Wires for the accumulator `f` with the evaluation at `p` of the line
/// with the coefficients `g2_coeffs` folded in.
pub fn ell_target(
    builder: &mut CircuitBuilder,
    f: &Fq12Target,
    g2_coeffs: EllCoeffTarget,
    p: G1AffineTarget,
) -> (r: Fq12Target)
    requires
        old(builder).wf(),
        f.valid(old(builder)@),
        coeff_valid(g2_coeffs, old(builder)@),
        !p.infinity,
        p.valid(old(builder)@),
    ensures
        appends_arithmetic(old(builder)@, final(builder)@),
        r.valid(final(builder)@),
        forall|w: Seq<nat>| #[trigger]
            satisfies(final(builder)@, w) ==> r.value(w) == ell_value(
                f.value(w),
                coeff_target_value(g2_coeffs, w),
                p.x.value(w),
                p.y.value(w),
            ),
{
    let c0 = g2_coeffs.0;
    let c1 = g2_coeffs.1;
    let c2 = g2_coeffs.2;
    let (px, py) = (p.x, p.y);

    let c2 = c2.mul_assign_by_fp(builder, py);
    let c1 = c1.mul_assign_by_fp(builder, px);
    f.mul_by_014(builder, &c0, &c1, &c2)
}

/// Every pair from `start` up to `end` folds its coefficient number
/// `index` into `f`.
fn ell_batch(
    builder: &mut CircuitBuilder,
    f: Fq12Target,
    pairs: &Vec<(G1PreparedTarget, Vec<EllCoeffTarget>)>,
    start: usize,
    end: usize,
    index: usize,
) -> (r: Fq12Target)
    requires
        old(builder).wf(),
        f.valid(old(builder)@),
        start <= end <= pairs.len(),
        index < consumed(LOOP_STEPS as nat),
        prepared_pairs_valid(pairs@, old(builder)@),
    ensures
        appends_arithmetic(old(builder)@, final(builder)@),
        r.valid(final(builder)@),
        forall|w: Seq<nat>| #[trigger]
            satisfies(final(builder)@, w) ==> r.value(w) == ell_pairs(
                f.value(w),
                prepared_pairs_value(pairs@, w).subrange(start as int, end as int),
                (end - start) as nat,
                index as int,
            ),
{
    let mut r = f;
    let mut j: usize = start;
    while j < end
        invariant
            start <= j <= end <= pairs.len(),
            index < consumed(LOOP_STEPS as nat),
            builder.wf(),
            appends_arithmetic(old(builder)@, builder@),
            prepared_pairs_valid(pairs@, old(builder)@),
            f.valid(old(builder)@),
            r.valid(builder@),
            forall|w: Seq<nat>| #[trigger]
                satisfies(builder@, w) ==> r.value(w) == ell_pairs(
                    f.value(w),
                    prepared_pairs_value(pairs@, w).subrange(start as int, end as int),
                    (j - start) as nat,
                    index as int,
                ),
        decreases end - j,
    {
        let ghost before = builder@;
        let ghost previous = r;
        let pair = &pairs[j];
        assert(prepared_pair_valid(*pair, old(builder)@));
        let coeff = pair.1[index];
        assert(coeff_valid(pair.1@[index as int], old(builder)@));
        let next = ell_target(builder, &r, coeff, pair.0.0);
        proof {
            assert forall|w: Seq<nat>| #[trigger] satisfies(builder@, w) implies next.value(w)
                == ell_pairs(
                f.value(w),
                prepared_pairs_value(pairs@, w).subrange(start as int, end as int),
                (j + 1 - start) as nat,
                index as int,
            ) by {
                assert(satisfies(before, w));
                let chunk = prepared_pairs_value(pairs@, w).subrange(start as int, end as int);
                assert(chunk[j - start] == pair_value(pair.0, pair.1@, w));
                assert(chunk[j - start].coeffs[index as int] == coeff_target_value(coeff, w));
            }
        }
        r = next;
        j += 1;
    }
    r
}

/// Wires for the accumulator of the batch of pairs from `start` up to
/// `end` after the whole schedule.
fn miller_batch(
    builder: &mut CircuitBuilder,
    pairs: &Vec<(G1PreparedTarget, Vec<EllCoeffTarget>)>,
    start: usize,
    end: usize,
) -> (f: Fq12Target)
    requires
        old(builder).wf(),
        start <= end <= pairs.len(),
        prepared_pairs_valid(pairs@, old(builder)@),
    ensures
        appends_arithmetic(old(builder)@, final(builder)@),
        f.valid(final(builder)@),
        forall|w: Seq<nat>| #[trigger]
            satisfies(final(builder)@, w) ==> f.value(w) == miller_steps(
                prepared_pairs_value(pairs@, w).subrange(start as int, end as int),
                LOOP_STEPS as nat,
            ),
{
    let mut f = Fq12Target::constant(builder, Fq12::one());
    let mut index: usize = 0;
    let mut n: usize = 0;
    while n < LOOP_STEPS
        invariant
            n <= LOOP_STEPS,
            start <= end <= pairs.len(),
            builder.wf(),
            appends_arithmetic(old(builder)@, builder@),
            prepared_pairs_valid(pairs@, old(builder)@),
            index == consumed(n as nat),
            f.valid(builder@),
            forall|w: Seq<nat>| #[trigger]
                satisfies(builder@, w) ==> f.value(w) == miller_steps(
                    prepared_pairs_value(pairs@, w).subrange(start as int, end as int),
                    n as nat,
                ),
        decreases LOOP_STEPS - n,
    {
        proof {
            lemma_consumed_bound(n as nat);
            lemma_consumed_monotonic((n + 1) as nat, LOOP_STEPS as nat);
        }
        let ghost before = builder@;
        let ghost previous = f;
        assert(prepared_pairs_valid(pairs@, builder@)) by {
            lemma_pairs_stay_valid(pairs@, old(builder)@, builder@);
        }
        let squared = f.mul(builder, &f);
        let ghost squared_gates = builder@;
        assert(prepared_pairs_valid(pairs@, builder@)) by {
            lemma_pairs_stay_valid(pairs@, old(builder)@, builder@);
        }
        let doubled = ell_batch(builder, squared, pairs, start, end, index);
        let ghost doubled_gates = builder@;
        index += 1;
        let bit = loop_bit_at(n);
        let mut next = doubled;
        if bit {
            assert(prepared_pairs_valid(pairs@, builder@)) by {
                lemma_pairs_stay_valid(pairs@, old(builder)@, builder@);
            }
            next = ell_batch(builder, doubled, pairs, start, end, index);
            index += 1;
        }
        proof {
            assert forall|w: Seq<nat>| #[trigger] satisfies(builder@, w) implies next.value(w)
                == miller_steps(
                prepared_pairs_value(pairs@, w).subrange(start as int, end as int),
                (n + 1) as nat,
            ) by {
                assert(satisfies(doubled_gates, w));
                assert(satisfies(squared_gates, w));
                assert(satisfies(before, w));
            }
        }
        f = next;
        n += 1;
    }
    f
}

/// Pairs on wires of a circuit are on wires of every circuit that extends
/// it.
proof fn lemma_pairs_stay_valid(
    pairs: Seq<(G1PreparedTarget, Vec<EllCoeffTarget>)>,
    before: Seq<Gate>,
    after: Seq<Gate>,
)
    requires
        prepared_pairs_valid(pairs, before),
        before.len() <= after.len(),
    ensures
        prepared_pairs_valid(pairs, after),
{
    assert forall|i: int| 0 <= i < pairs.len() implies prepared_pair_valid(
        #[trigger] pairs[i],
        after,
    ) by {
        assert(prepared_pair_valid(pairs[i], before));
        let coeffs = pairs[i].1@;
        assert forall|k: int| 0 <= k < coeffs.len() implies coeff_valid(
            #[trigger] coeffs[k],
            after,
        ) by {
            assert(coeff_valid(coeffs[k], before));
        }
    }
}

/// The product of the accumulators of the batches is the product of the
/// elements that stand for them.
proof fn lemma_product_of_batches(
    pairs: Seq<PairValue>,
    accumulators: Seq<Fq12Value>,
    size: nat,
    steps: nat,
    k: nat,
)
    requires
        k <= accumulators.len(),
        forall|j: int|
            0 <= j < k ==> #[trigger] accumulators[j] == miller_steps(
                batch(pairs, size, j as nat),
                steps,
            ),
    ensures
        fq12_product(accumulators, k) == batches_product(pairs, size, steps, k),
    decreases k,
{
    if k > 0 {
        lemma_product_of_batches(pairs, accumulators, size, steps, (k - 1) as nat);
    }
}

/// The Miller loop over the pairs `(a[i], b[i])`, as a circuit.
///
/// Pairs with a point at infinity on either side are left out. The others
/// are taken in batches of `BATCH_SIZE`, each with an accumulator of its
/// own, and the accumulators are multiplied together; with no pair left the
/// result is one. The result stands for the raw value of the loop, without
/// the final exponentiation.
pub fn multi_miller_loop(
    builder: &mut CircuitBuilder,
    a: Vec<G1PreparedTarget>,
    b: Vec<G2PreparedTarget>,
) -> (f: Fq12Target)
    requires
        old(builder).wf(),
        a.len() == b.len(),
        forall|i: int|
            0 <= i < a.len() ==> (#[trigger] a[i]).0.valid(old(builder)@) && b[i].valid(
                old(builder)@,
            ),
    ensures
        appends_arithmetic(old(builder)@, final(builder)@),
        f.valid(final(builder)@),
        forall|w: Seq<nat>| #[trigger]
            satisfies(final(builder)@, w) ==> f.value(w) == multi_miller_loop_value(
                target_pairs(a@, b@, w),
                BATCH_SIZE as nat,
                LOOP_STEPS as nat,
            ),
{
    let ghost (a0, b0) = (a@, b@);
    let pairs = getter_of_prepared_pairs(a, b, Ghost(builder@));
    let mut pairs_f_storage: Vec<Fq12Target> = Vec::new();
    let mut start: usize = 0;
    while start < pairs.len()
        invariant
            start <= pairs.len(),
            builder.wf(),
            appends_arithmetic(old(builder)@, builder@),
            prepared_pairs_valid(pairs@, old(builder)@),
            4 * pairs_f_storage.len() <= pairs.len() + 3,
            start == if 4 * pairs_f_storage.len() <= pairs.len() {
                4 * pairs_f_storage.len()
            } else {
                pairs.len() as int
            },
            forall|k: int|
                0 <= k < pairs_f_storage.len() ==> (#[trigger] pairs_f_storage[k]).valid(builder@),
            forall|w: Seq<nat>| #[trigger]
                satisfies(builder@, w) ==> forall|k: int|
                    0 <= k < pairs_f_storage.len() ==> #[trigger] values(pairs_f_storage@, w)[k]
                        == miller_steps(
                        batch(prepared_pairs_value(pairs@, w), BATCH_SIZE as nat, k as nat),
                        LOOP_STEPS as nat,
                    ),
        decreases pairs.len() - start,
    {
        let end = if pairs.len() - start < BATCH_SIZE {
            pairs.len()
        } else {
            start + BATCH_SIZE
        };
        let ghost before = builder@;
        let ghost storage_before = pairs_f_storage@;
        assert(prepared_pairs_valid(pairs@, builder@)) by {
            lemma_pairs_stay_valid(pairs@, old(builder)@, builder@);
        }
        let f = miller_batch(builder, &pairs, start, end);
        pairs_f_storage.push(f);
        proof {
            let count = storage_before.len();
            assert forall|w: Seq<nat>| #[trigger] satisfies(builder@, w) implies forall|k: int|
                0 <= k < pairs_f_storage.len() ==> #[trigger] values(pairs_f_storage@, w)[k]
                    == miller_steps(
                    batch(prepared_pairs_value(pairs@, w), BATCH_SIZE as nat, k as nat),
                    LOOP_STEPS as nat,
                ) by {
                assert(satisfies(before, w));
                let all = prepared_pairs_value(pairs@, w);
                assert(all.subrange(start as int, end as int) == batch(all, 4, count as nat)) by {
                    assert(count as nat * 4nat == 4 * count);
                }
                assert forall|k: int| 0 <= k < pairs_f_storage.len() implies #[trigger] values(
                    pairs_f_storage@,
                    w,
                )[k] == miller_steps(batch(all, BATCH_SIZE as nat, k as nat), LOOP_STEPS as nat) by {
                    if k < count {
                        assert(values(storage_before, w)[k] == storage_before[k].value(w));
                    }
                }
            }
        }
        start = end;
    }
    let ghost count = pairs_f_storage.len();
    assert(count == batch_count(pairs.len() as nat, BATCH_SIZE as nat));
    let ghost multiplied = builder@;
    let mut f = match Fq12Target::multiply_elements(builder, &pairs_f_storage) {
        Some(f) => f,
        None => Fq12Target::constant(builder, Fq12::one()),
    };
    proof {
        assert forall|w: Seq<nat>| #[trigger] satisfies(builder@, w) implies f.value(w)
            == batches_product(
            finite_pairs(target_pairs(a0, b0, w), a0.len()),
            BATCH_SIZE as nat,
            LOOP_STEPS as nat,
            count as nat,
        ) by {
            assert(satisfies(multiplied, w));
            let all = prepared_pairs_value(pairs@, w);
            let accumulators = values(pairs_f_storage@, w);
            lemma_product_of_batches(
                all,
                accumulators,
                BATCH_SIZE as nat,
                LOOP_STEPS as nat,
                count as nat,
            );
        }
    }
    let ghost product = f;
    let ghost product_gates = builder@;
    if BLS_X_IS_NEGATIVE {
        f = f.conjugate(builder);
    }
    proof {
        assert forall|w: Seq<nat>| #[trigger] satisfies(builder@, w) implies f.value(w)
            == multi_miller_loop_value(
            target_pairs(a0, b0, w),
            BATCH_SIZE as nat,
            LOOP_STEPS as nat,
        ) by {
            assert(satisfies(product_gates, w));
            assert(prepared_pairs_value(pairs@, w).len() == pairs.len());
        }
    }
    f
}

} // verus!
