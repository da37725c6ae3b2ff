//! Preparation of points of the twisted curve and the Miller loop, computed
//! directly on field elements.

use crate::math::field::{lemma_inverse_is_fq_inv, lemma_ops_reduce, lemma_reduce_small};
use crate::math::pairing::{
    add_coeff, add_point, batch, batch_count, batches_product, consumed, double_coeff,
    double_point, ell_pairs, ell_value, finite_pairs, lemma_consumed_bound,
    lemma_consumed_monotonic, miller_steps, multi_miller_loop_value, prepare_coeffs,
    prepare_point, two_inv, EllCoeffValue, G2ProjectiveValue, PairValue,
};
use crate::math::batching::{pair_prepared, pairs_prepared};
use crate::math::tower::fq2_canonical;
use crate::native::curves::{G1Affine, G2Affine};
use crate::native::fields::{g2_coeff_b, Fq, Fq12, Fq2};
use crate::utils::constants::{loop_bit_at, BLS_X_IS_NEGATIVE, LOOP_STEPS};
use itertools::Itertools;
use vstd::prelude::*;

verus! {

/// The number of pairs that one accumulator takes.
pub const BATCH_SIZE: usize = 4;

/// The coefficients of one line.
pub type EllCoeff = (Fq2, Fq2, Fq2);

#[derive(Clone, Copy, Debug, PartialEq, Eq)]
pub struct G1Prepared(pub G1Affine);

/// The coefficients of all lines that the Miller loop evaluates for one
/// point of the twisted curve, in the order in which it evaluates them.
#[derive(Clone, Debug, PartialEq, Eq)]
pub struct G2Prepared {
    pub ell_coeffs: Vec<EllCoeff>,
    pub infinity: bool,
}

/// The accumulator of the preparation.
#[derive(Clone, Copy, Debug, PartialEq, Eq)]
pub struct G2Projective {
    pub x: Fq2,
    pub y: Fq2,
    pub z: Fq2,
}

pub open spec fn coeff_wf(c: EllCoeff) -> bool {
    c.0.wf() && c.1.wf() && c.2.wf()
}

pub open spec fn coeff_value(c: EllCoeff) -> EllCoeffValue {
    EllCoeffValue { c0: c.0@, c1: c.1@, c2: c.2@ }
}

pub open spec fn coeffs_wf(s: Seq<EllCoeff>) -> bool {
    forall|i: int| 0 <= i < s.len() ==> coeff_wf(#[trigger] s[i])
}

pub open spec fn coeffs_value(s: Seq<EllCoeff>) -> Seq<EllCoeffValue> {
    Seq::new(s.len(), |i: int| coeff_value(s[i]))
}

impl G2Prepared {
    /// A finite point has one canonical coefficient for every line of the
    /// schedule.
    pub open spec fn wf(&self) -> bool {
        !self.infinity ==> self.ell_coeffs@.len() == consumed(LOOP_STEPS as nat) && coeffs_wf(
            self.ell_coeffs@,
        )
    }

    pub fn is_zero(&self) -> (r: bool)
        ensures
            r == self.infinity,
    {
        self.infinity
    }

    /// The coefficients of the lines for `q`: none for the point at
    /// infinity, and else those of the doubling and addition steps that
    /// lead from `q` through the schedule.
    pub fn from(q: G2Affine) -> (r: G2Prepared)
        requires
            q.wf(),
        ensures
            r.wf(),
            r.infinity == q.infinity,
            q.infinity ==> r.ell_coeffs@.len() == 0,
            !q.infinity ==> coeffs_value(r.ell_coeffs@) == prepare_coeffs(
                q.x@,
                q.y@,
                LOOP_STEPS as nat,
            ),
    {
        let two_inv = half();
        match q.xy() {
            None => G2Prepared { ell_coeffs: Vec::new(), infinity: true },
            Some((x, y)) => {
                let mut ell_coeffs: Vec<EllCoeff> = Vec::new();
                let mut r = G2Projective { x, y, z: Fq2::one() };
                let mut i: usize = 0;
                while i < LOOP_STEPS
                    invariant
                        i <= LOOP_STEPS,
                        !q.infinity,
                        x == q.x,
                        y == q.y,
                        x.wf(),
                        y.wf(),
                        two_inv.wf(),
                        two_inv@ == crate::math::pairing::two_inv(),
                        r.wf(),
                        r@ == prepare_point(x@, y@, i as nat),
                        coeffs_wf(ell_coeffs@),
                        coeffs_value(ell_coeffs@) == prepare_coeffs(x@, y@, i as nat),
                    decreases LOOP_STEPS - i,
                {
                    let ghost before = coeffs_value(ell_coeffs@);
                    let c = r.double_in_place(&two_inv);
                    ell_coeffs.push(c);
                    assert(coeffs_value(ell_coeffs@) == before.push(coeff_value(c)));
                    if loop_bit_at(i) {
                        let ghost doubled = coeffs_value(ell_coeffs@);
                        let c = r.add_in_place(&q);
                        ell_coeffs.push(c);
                        assert(coeffs_value(ell_coeffs@) == doubled.push(coeff_value(c)));
                    }
                    i += 1;
                }
                proof {
                    crate::math::pairing::lemma_prepare_coeffs_len(x@, y@, LOOP_STEPS as nat);
                }
                G2Prepared { ell_coeffs, infinity: false }
            },
        }
    }
}

/// One half: the inverse of `1 + 1`.
pub(crate) fn half() -> (r: Fq)
    ensures
        r.wf(),
        r@ == two_inv(),
{
    let two = Fq::one().double();
    proof {
        lemma_ops_reduce();
        lemma_reduce_small(2);
    }
    let r = two.inverse().unwrap();
    proof {
        lemma_inverse_is_fq_inv(2, r@);
    }
    r
}

impl View for G2Projective {
    type V = G2ProjectiveValue;

    open spec fn view(&self) -> G2ProjectiveValue {
        G2ProjectiveValue { x: self.x@, y: self.y@, z: self.z@ }
    }
}

impl G2Projective {
    pub open spec fn wf(&self) -> bool {
        self.x.wf() && self.y.wf() && self.z.wf()
    }

    pub fn empty() -> (r: Self)
        ensures
            r.wf(),
            r@ == (G2ProjectiveValue {
                x: crate::math::tower::fq2_zero(),
                y: crate::math::tower::fq2_zero(),
                z: crate::math::tower::fq2_zero(),
            }),
    {
        Self { x: Fq2::zero(), y: Fq2::zero(), z: Fq2::zero() }
    }

    /// Three coordinates drawn at random. Nothing holds of them but that
    /// they are field elements.
    pub fn random() -> (r: Self)
        ensures
            r.wf(),
    {
        Self { x: Fq2::random(), y: Fq2::random(), z: Fq2::random() }
    }

    /// Doubles the point and returns the coefficients of the tangent at
    /// the point it was.
    pub fn double_in_place(&mut self, two_inv: &Fq) -> (coeff: EllCoeff)
        requires
            old(self).wf(),
            two_inv.wf(),
        ensures
            final(self).wf(),
            coeff_wf(coeff),
            final(self)@ == double_point(old(self)@, two_inv@),
            coeff_value(coeff) == double_coeff(old(self)@),
    {
        let a = self.x.mul(&self.y).mul_by_fp(two_inv);
        let b = self.y.square();
        let c = self.z.square();
        let coeff_b = g2_coeff_b();
        let e = coeff_b.mul(&c.double().add(&c));
        let f = e.double().add(&e);
        let g = b.add(&f).mul_by_fp(two_inv);
        let h = self.y.add(&self.z).square().sub(&b.add(&c));
        let i = e.sub(&b);
        let j = self.x.square();
        let e_square = e.square();

        self.x = a.mul(&b.sub(&f));
        self.y = g.square().sub(&e_square.double().add(&e_square));
        self.z = b.mul(&h);
        (i, j.double().add(&j), h.neg())
    }

    /// Adds the affine point `q` and returns the coefficients of the line
    /// through `q` and the point it was.
    pub fn add_in_place(&mut self, q: &G2Affine) -> (coeff: EllCoeff)
        requires
            old(self).wf(),
            !q.infinity,
            q.wf(),
        ensures
            final(self).wf(),
            coeff_wf(coeff),
            final(self)@ == add_point(old(self)@, q.x@, q.y@),
            coeff_value(coeff) == add_coeff(old(self)@, q.x@, q.y@),
    {
        let (qx, qy) = (q.x, q.y);
        let theta = self.y.sub(&qy.mul(&self.z));
        let lambda = self.x.sub(&qx.mul(&self.z));
        let c = theta.square();
        let d = lambda.square();
        let e = lambda.mul(&d);
        let f = self.z.mul(&c);
        let g = self.x.mul(&d);
        let h = e.add(&f).sub(&g.double());
        self.x = lambda.mul(&h);
        self.y = theta.mul(&g.sub(&h)).sub(&e.mul(&self.y));
        self.z = self.z.mul(&e);
        let j = theta.mul(&qx).sub(&lambda.mul(&qy));

        (j, theta.neg(), lambda)
    }
}

/// The two sides of a pair are both finite points.
pub open spec fn survives(p: G1Prepared, q: G2Prepared) -> bool {
    !p.0.infinity && !q.infinity
}

/// What the Miller loop reads of a pair.
pub open spec fn pair_value(p: G1Prepared, coeffs: Seq<EllCoeff>) -> PairValue {
    PairValue { px: p.0.x@, py: p.0.y@, coeffs: coeffs_value(coeffs) }
}

/// What the Miller loop reads of the pair `(p, q)`: nothing, where either
/// is the point at infinity.
pub open spec fn prepared_pair(p: G1Prepared, q: G2Prepared) -> Option<PairValue> {
    if survives(p, q) {
        Some(pair_value(p, q.ell_coeffs@))
    } else {
        None
    }
}

/// What the Miller loop reads of the pairs `(a[i], b[i])`.
pub open spec fn prepared_pairs(a: Seq<G1Prepared>, b: Seq<G2Prepared>) -> Seq<Option<PairValue>> {
    Seq::new(a.len(), |i: int| prepared_pair(a[i], b[i]))
}

/// A pair that takes part in the loop: a finite point with canonical
/// coordinates, and a coefficient for every line.
pub open spec fn prepared_pair_wf(pair: (G1Prepared, Vec<EllCoeff>)) -> bool {
    &&& !pair.0.0.infinity
    &&& pair.0.0.wf()
    &&& pair.1@.len() == consumed(LOOP_STEPS as nat)
    &&& coeffs_wf(pair.1@)
}

pub open spec fn prepared_pairs_value(pairs: Seq<(G1Prepared, Vec<EllCoeff>)>) -> Seq<PairValue> {
    Seq::new(pairs.len(), |i: int| pair_value(pairs[i].0, pairs[i].1@))
}

/// `Itertools::zip_eq` of `itertools`, collected: the entries of two
/// vectors of one length side by side.
#[verifier::external_body]
pub(crate) fn zip_eq<A, B>(a: Vec<A>, b: Vec<B>) -> (r: Vec<(A, B)>)
    requires
        a.len() == b.len(),
    ensures
        r.len() == a.len(),
        forall|i: int| 0 <= i < r.len() ==> (#[trigger] r[i]).0 == a[i] && r[i].1 == b[i],
{
    a.into_iter().zip_eq(b).collect()
}

/// The pairs of which both sides are finite, each with the coefficients of
/// its lines.
pub fn getter_of_prepared_pairs(a: Vec<G1Prepared>, b: Vec<G2Prepared>) -> (r: Vec<
    (G1Prepared, Vec<EllCoeff>),
>)
    requires
        a.len() == b.len(),
        forall|i: int| 0 <= i < a.len() ==> (#[trigger] a[i]).0.wf(),
        forall|i: int| 0 <= i < b.len() ==> (#[trigger] b[i]).wf(),
    ensures
        prepared_pairs_value(r@) == finite_pairs(prepared_pairs(a@, b@), a.len() as nat),
        forall|i: int| 0 <= i < r.len() ==> prepared_pair_wf(#[trigger] r[i]),
{
    let ghost (a0, b0) = (a@, b@);
    let zipped = zip_eq(a, b);
    let ghost n = zipped.len();
    let mut pairs: Vec<(G1Prepared, Vec<EllCoeff>)> = Vec::new();
    for pq in it: zipped
        invariant
            n == a0.len() == b0.len(),
            it.seq().len() == n,
            forall|i: int| 0 <= i < n ==> (#[trigger] it.seq()[i]).0 == a0[i] && it.seq()[i].1 == b0[i],
            forall|i: int| 0 <= i < n ==> (#[trigger] a0[i]).0.wf(),
            forall|i: int| 0 <= i < n ==> (#[trigger] b0[i]).wf(),
            prepared_pairs_value(pairs@) == finite_pairs(prepared_pairs(a0, b0), it.index() as nat),
            forall|i: int| 0 <= i < pairs.len() ==> prepared_pair_wf(#[trigger] pairs[i]),
    {
        let ghost k = it.index();
        let ghost before = prepared_pairs_value(pairs@);
        let (p, q) = pq;
        assert(p == a0[k] && q == b0[k]);
        if !p.0.is_zero() && !q.is_zero() {
            pairs.push((p, q.ell_coeffs));
            assert(prepared_pairs_value(pairs@) == before.push(pair_value(p, q.ell_coeffs@)));
        }
    }
    pairs
}

/// Folds the evaluation at `p` of the line with coefficients `g2_coeffs`
/// into the accumulator `f`.
pub fn ell(f: &mut Fq12, g2_coeffs: EllCoeff, p: G1Affine)
    requires
        old(f).wf(),
        coeff_wf(g2_coeffs),
        !p.infinity,
        p.wf(),
    ensures
        final(f).wf(),
        final(f)@ == ell_value(old(f)@, coeff_value(g2_coeffs), p.x@, p.y@),
{
    let c0 = g2_coeffs.0;
    let (px, py) = (p.x, p.y);
    let c2 = g2_coeffs.2.mul_by_fp(&py);
    let c1 = g2_coeffs.1.mul_by_fp(&px);
    *f = f.mul_by_014(&c0, &c1, &c2);
}

/// Every pair from `start` up to `end` folds its coefficient number
/// `index` into `f`.
fn ell_batch(
    f: &mut Fq12,
    pairs: &Vec<(G1Prepared, Vec<EllCoeff>)>,
    start: usize,
    end: usize,
    index: usize,
)
    requires
        old(f).wf(),
        start <= end <= pairs.len(),
        index < consumed(LOOP_STEPS as nat),
        forall|i: int| 0 <= i < pairs.len() ==> prepared_pair_wf(#[trigger] pairs[i]),
    ensures
        final(f).wf(),
        final(f)@ == ell_pairs(
            old(f)@,
            prepared_pairs_value(pairs@).subrange(start as int, end as int),
            (end - start) as nat,
            index as int,
        ),
{
    let ghost chunk = prepared_pairs_value(pairs@).subrange(start as int, end as int);
    let mut j: usize = start;
    while j < end
        invariant
            start <= j <= end <= pairs.len(),
            index < consumed(LOOP_STEPS as nat),
            forall|i: int| 0 <= i < pairs.len() ==> prepared_pair_wf(#[trigger] pairs[i]),
            chunk == prepared_pairs_value(pairs@).subrange(start as int, end as int),
            f.wf(),
            f@ == ell_pairs(old(f)@, chunk, (j - start) as nat, index as int),
        decreases end - j,
    {
        let pair = &pairs[j];
        assert(prepared_pair_wf(*pair));
        assert(chunk[j - start] == pair_value(pair.0, pair.1@));
        let coeff = pair.1[index];
        ell(f, coeff, pair.0.0);
        j += 1;
    }
}

/// The accumulator of the batch of pairs from `start` up to `end` after
/// the whole schedule.
fn miller_batch(pairs: &Vec<(G1Prepared, Vec<EllCoeff>)>, start: usize, end: usize) -> (f: Fq12)
    requires
        start <= end <= pairs.len(),
        forall|i: int| 0 <= i < pairs.len() ==> prepared_pair_wf(#[trigger] pairs[i]),
    ensures
        f.wf(),
        f@ == miller_steps(
            prepared_pairs_value(pairs@).subrange(start as int, end as int),
            LOOP_STEPS as nat,
        ),
{
    let ghost chunk = prepared_pairs_value(pairs@).subrange(start as int, end as int);
    let mut f = Fq12::one();
    let mut index: usize = 0;
    let mut n: usize = 0;
    while n < LOOP_STEPS
        invariant
            n <= LOOP_STEPS,
            start <= end <= pairs.len(),
            forall|i: int| 0 <= i < pairs.len() ==> prepared_pair_wf(#[trigger] pairs[i]),
            chunk == prepared_pairs_value(pairs@).subrange(start as int, end as int),
            index == consumed(n as nat),
            f.wf(),
            f@ == miller_steps(chunk, n as nat),
        decreases LOOP_STEPS - n,
    {
        proof {
            lemma_consumed_bound(n as nat);
            lemma_consumed_monotonic((n + 1) as nat, LOOP_STEPS as nat);
        }
        f = f.square();
        ell_batch(&mut f, pairs, start, end, index);
        index += 1;
        if loop_bit_at(n) {
            ell_batch(&mut f, pairs, start, end, index);
            index += 1;
        }
        n += 1;
    }
    f
}

/// The Miller loop over the pairs `(a[i], b[i])`.
///
/// Pairs with a point at infinity on either side are left out. The others
/// are taken in batches of `BATCH_SIZE`, each with an accumulator of its
/// own, and the accumulators are multiplied together. The result is the raw
/// value of the loop, without the final exponentiation.
pub fn multi_miller_loop_native(a: Vec<G1Prepared>, b: Vec<G2Prepared>) -> (f: Fq12)
    requires
        a.len() == b.len(),
        forall|i: int| 0 <= i < a.len() ==> (#[trigger] a[i]).0.wf(),
        forall|i: int| 0 <= i < b.len() ==> (#[trigger] b[i]).wf(),
    ensures
        f.wf(),
        f@ == multi_miller_loop_value(
            prepared_pairs(a@, b@),
            BATCH_SIZE as nat,
            LOOP_STEPS as nat,
        ),
{
    let pairs = getter_of_prepared_pairs(a, b);
    let ghost values = prepared_pairs_value(pairs@);
    let mut f = Fq12::one();
    let mut start: usize = 0;
    let mut k: usize = 0;
    while start < pairs.len()
        invariant
            start <= pairs.len(),
            4 * k <= pairs.len() + 3,
            start == if 4 * k <= pairs.len() {
                4 * k
            } else {
                pairs.len() as int
            },
            forall|i: int| 0 <= i < pairs.len() ==> prepared_pair_wf(#[trigger] pairs[i]),
            values == prepared_pairs_value(pairs@),
            f.wf(),
            f@ == batches_product(values, BATCH_SIZE as nat, LOOP_STEPS as nat, k as nat),
        decreases pairs.len() - start,
    {
        let end = if pairs.len() - start < BATCH_SIZE {
            pairs.len()
        } else {
            start + BATCH_SIZE
        };
        assert(values.subrange(start as int, end as int) == batch(values, 4, k as nat)) by {
            assert(k as nat * 4nat == 4 * k);
        }
        let g = miller_batch(&pairs, start, end);
        f = f.mul(&g);
        start = end;
        k += 1;
    }
    assert(k == batch_count(pairs.len() as nat, BATCH_SIZE as nat));
    if BLS_X_IS_NEGATIVE {
        f = f.conjugate();
    }
    f
}

/// The pairs that the loop reads of well-formed points are prepared for
/// the whole schedule, so that their batches do not matter.
pub proof fn lemma_prepared_pairs_are_prepared(a: Seq<G1Prepared>, b: Seq<G2Prepared>, n: nat)
    requires
        n <= a.len() == b.len(),
        forall|i: int| 0 <= i < b.len() ==> (#[trigger] b[i]).wf(),
    ensures
        pairs_prepared(
            finite_pairs(prepared_pairs(a, b), n),
            consumed(LOOP_STEPS as nat),
        ),
    decreases n,
{
    if n > 0 {
        lemma_prepared_pairs_are_prepared(a, b, (n - 1) as nat);
        let rest = finite_pairs(prepared_pairs(a, b), (n - 1) as nat);
        let all = finite_pairs(prepared_pairs(a, b), n);
        let count = consumed(LOOP_STEPS as nat);
        if survives(a[n - 1], b[n - 1]) {
            let q = b[n - 1];
            let pair = pair_value(a[n - 1], q.ell_coeffs@);
            assert(q.wf());
            assert(pair_prepared(pair, count)) by {
                assert forall|i: int| 0 <= i < count implies fq2_canonical(
                    (#[trigger] pair.coeffs[i]).c0,
                ) by {
                    assert(coeff_wf(q.ell_coeffs@[i]));
                    let c0 = q.ell_coeffs@[i].0;
                    assert(c0.c@[0].wf() && c0.c@[1].wf());
                }
            }
            assert forall|i: int| 0 <= i < all.len() implies pair_prepared(
                #[trigger] all[i],
                count,
            ) by {
                if i < rest.len() {
                    assert(all[i] == rest[i]);
                }
            }
        }
    }
}

} // verus!
