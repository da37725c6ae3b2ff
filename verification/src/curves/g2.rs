//! Points of the twisted curve on wires, and their preparation for the
//! Miller loop.

use crate::circuit::builder::{appends_arithmetic, satisfies, CircuitBuilder, Gate};
use crate::fields::fq2_target::Fq2Target;
use crate::fields::fq_target::FqTarget;
use crate::math::pairing::{
    add_coeff, add_point, consumed, double_coeff, double_point, prepare_coeffs, prepare_point,
    EllCoeffValue, G2ProjectiveValue,
};
use crate::native::curves::G2Affine;
use crate::native::fields::{g2_coeff_b, Fq2};
use crate::native::miller_loop::half;
use crate::utils::constants::{loop_bit_at, LOOP_STEPS};
use vstd::prelude::*;

verus! {

/// A point of the twisted curve: wires for its coordinates, or the point
/// at infinity, which is known when the circuit is built.
#[derive(Clone, Copy, Debug, PartialEq, Eq)]
pub struct G2AffineTarget {
    pub x: Fq2Target,
    pub y: Fq2Target,
    pub infinity: bool,
}

/// The coefficients of one line, on wires.
pub type EllCoeffTarget = (Fq2Target, Fq2Target, Fq2Target);

/// The coefficients of all lines that the Miller loop evaluates for one
/// point of the twisted curve, in the order in which it evaluates them.
#[derive(Clone, Debug, PartialEq, Eq)]
pub struct G2PreparedTarget {
    pub ell_coeffs: Vec<EllCoeffTarget>,
    pub infinity: bool,
}

/// The accumulator of the preparation, on wires.
struct G2ProjectiveTarget {
    x: Fq2Target,
    y: Fq2Target,
    z: Fq2Target,
}

pub open spec fn coeff_valid(c: EllCoeffTarget, gates: Seq<Gate>) -> bool {
    c.0.valid(gates) && c.1.valid(gates) && c.2.valid(gates)
}

pub open spec fn coeffs_valid(s: Seq<EllCoeffTarget>, gates: Seq<Gate>) -> bool {
    forall|i: int| 0 <= i < s.len() ==> coeff_valid(#[trigger] s[i], gates)
}

/// The coefficients on the wires `c` under the values `w`.
pub open spec fn coeff_target_value(c: EllCoeffTarget, w: Seq<nat>) -> EllCoeffValue {
    EllCoeffValue { c0: c.0.value(w), c1: c.1.value(w), c2: c.2.value(w) }
}

pub open spec fn coeff_targets_value(s: Seq<EllCoeffTarget>, w: Seq<nat>) -> Seq<EllCoeffValue> {
    Seq::new(s.len(), |i: int| coeff_target_value(s[i], w))
}

impl G2AffineTarget {
    /// The wires of a finite point belong to the circuit; those of the
    /// point at infinity are never read.
    pub open spec fn valid(&self, gates: Seq<Gate>) -> bool {
        !self.infinity ==> self.x.valid(gates) && self.y.valid(gates)
    }

    pub fn is_zero(&self) -> (r: bool)
        ensures
            r == self.infinity,
    {
        self.infinity
    }

    /// Wires that carry the coordinates of the finite point `g2`.
    pub fn constant(builder: &mut CircuitBuilder, g2: G2Affine) -> (r: Self)
        requires
            old(builder).wf(),
            !g2.infinity,
            g2.wf(),
        ensures
            appends_arithmetic(old(builder)@, final(builder)@),
            !r.infinity,
            r.valid(final(builder)@),
            forall|w: Seq<nat>| #[trigger]
                satisfies(final(builder)@, w) ==> r.x.value(w) == g2.x@ && r.y.value(w) == g2.y@,
    {
        let x = Fq2Target::constant(builder, g2.x);
        let y = Fq2Target::constant(builder, g2.y);
        Self { x, y, infinity: false }
    }
}

impl G2ProjectiveTarget {
    spec fn valid(&self, gates: Seq<Gate>) -> bool {
        self.x.valid(gates) && self.y.valid(gates) && self.z.valid(gates)
    }

    spec fn value(&self, w: Seq<nat>) -> G2ProjectiveValue {
        G2ProjectiveValue { x: self.x.value(w), y: self.y.value(w), z: self.z.value(w) }
    }

    /// Wires for the doubled point and for the coefficients of the tangent
    /// at the point.
    fn double(&self, builder: &mut CircuitBuilder, two_inv: &FqTarget, coeff_b: &Fq2Target) -> (r:
        (Self, EllCoeffTarget))
        requires
            old(builder).wf(),
            self.valid(old(builder)@),
            two_inv.valid(old(builder)@),
            coeff_b.valid(old(builder)@),
        ensures
            appends_arithmetic(old(builder)@, final(builder)@),
            r.0.valid(final(builder)@),
            coeff_valid(r.1, final(builder)@),
            forall|w: Seq<nat>| #[trigger]
                satisfies(final(builder)@, w) && coeff_b.value(w) == crate::math::pairing::coeff_b()
                    ==> r.0.value(w) == double_point(self.value(w), two_inv.value(w))
                    && coeff_target_value(r.1, w) == double_coeff(self.value(w)),
    {
        let a = self.x.mul(builder, &self.y);
        let a = a.mul_assign_by_fp(builder, *two_inv);
        let b = self.y.mul(builder, &self.y);
        let c = self.z.mul(builder, &self.z);
        let c2 = c.add(builder, &c);
        let c3 = c2.add(builder, &c);
        let e = coeff_b.mul(builder, &c3);
        let e2 = e.add(builder, &e);
        let f = e2.add(builder, &e);
        let g = b.add(builder, &f);
        let g = g.mul_assign_by_fp(builder, *two_inv);
        let y_plus_z = self.y.add(builder, &self.z);
        let y_plus_z_square = y_plus_z.mul(builder, &y_plus_z);
        let b_plus_c = b.add(builder, &c);
        let h = y_plus_z_square.sub(builder, &b_plus_c);
        let i = e.sub(builder, &b);
        let j = self.x.mul(builder, &self.x);
        let e_square = e.mul(builder, &e);

        let b_minus_f = b.sub(builder, &f);
        let x = a.mul(builder, &b_minus_f);
        let g_square = g.mul(builder, &g);
        let e_square2 = e_square.add(builder, &e_square);
        let e_square3 = e_square2.add(builder, &e_square);
        let y = g_square.sub(builder, &e_square3);
        let z = b.mul(builder, &h);
        let j2 = j.add(builder, &j);
        let j3 = j2.add(builder, &j);
        let minus_h = h.neg(builder);
        (G2ProjectiveTarget { x, y, z }, (i, j3, minus_h))
    }

    /// Wires for the sum with the affine point `(qx, qy)` and for the
    /// coefficients of the line through the two points.
    fn add(&self, builder: &mut CircuitBuilder, qx: &Fq2Target, qy: &Fq2Target) -> (r: (
        Self,
        EllCoeffTarget,
    ))
        requires
            old(builder).wf(),
            self.valid(old(builder)@),
            qx.valid(old(builder)@),
            qy.valid(old(builder)@),
        ensures
            appends_arithmetic(old(builder)@, final(builder)@),
            r.0.valid(final(builder)@),
            coeff_valid(r.1, final(builder)@),
            forall|w: Seq<nat>| #[trigger]
                satisfies(final(builder)@, w) ==> r.0.value(w) == add_point(
                    self.value(w),
                    qx.value(w),
                    qy.value(w),
                ) && coeff_target_value(r.1, w) == add_coeff(
                    self.value(w),
                    qx.value(w),
                    qy.value(w),
                ),
    {
        let qy_z = qy.mul(builder, &self.z);
        let theta = self.y.sub(builder, &qy_z);
        let qx_z = qx.mul(builder, &self.z);
        let lambda = self.x.sub(builder, &qx_z);
        let c = theta.mul(builder, &theta);
        let d = lambda.mul(builder, &lambda);
        let e = lambda.mul(builder, &d);
        let f = self.z.mul(builder, &c);
        let g = self.x.mul(builder, &d);
        let e_plus_f = e.add(builder, &f);
        let g2 = g.add(builder, &g);
        let h = e_plus_f.sub(builder, &g2);
        let x = lambda.mul(builder, &h);
        let g_minus_h = g.sub(builder, &h);
        let theta_g_minus_h = theta.mul(builder, &g_minus_h);
        let e_y = e.mul(builder, &self.y);
        let y = theta_g_minus_h.sub(builder, &e_y);
        let z = self.z.mul(builder, &e);
        let theta_qx = theta.mul(builder, qx);
        let lambda_qy = lambda.mul(builder, qy);
        let j = theta_qx.sub(builder, &lambda_qy);
        let minus_theta = theta.neg(builder);
        (G2ProjectiveTarget { x, y, z }, (j, minus_theta, lambda))
    }
}

impl G2PreparedTarget {
    /// A finite point has one coefficient on wires of the circuit for
    /// every line of the schedule.
    pub open spec fn valid(&self, gates: Seq<Gate>) -> bool {
        !self.infinity ==> self.ell_coeffs@.len() == consumed(LOOP_STEPS as nat) && coeffs_valid(
            self.ell_coeffs@,
            gates,
        )
    }

    pub fn is_zero(&self) -> (r: bool)
        ensures
            r == self.infinity,
    {
        self.infinity
    }

    /// Wires for the coefficients of the lines for `q`: none for the point
    /// at infinity, and else those of the doubling and addition steps that
    /// lead from `q` through the schedule.
    pub fn from(builder: &mut CircuitBuilder, q: G2AffineTarget) -> (r: Self)
        requires
            old(builder).wf(),
            q.valid(old(builder)@),
        ensures
            appends_arithmetic(old(builder)@, final(builder)@),
            r.valid(final(builder)@),
            r.infinity == q.infinity,
            q.infinity ==> r.ell_coeffs@.len() == 0,
            !q.infinity ==> forall|w: Seq<nat>| #[trigger]
                satisfies(final(builder)@, w) ==> coeff_targets_value(r.ell_coeffs@, w)
                    == prepare_coeffs(q.x.value(w), q.y.value(w), LOOP_STEPS as nat),
    {
        if q.infinity {
            return G2PreparedTarget { ell_coeffs: Vec::new(), infinity: true };
        }
        let two_inv = FqTarget::constant(builder, half());
        let coeff_b = Fq2Target::constant(builder, g2_coeff_b());
        let one = Fq2Target::constant(builder, Fq2::one());
        let ghost start = builder@;
        let mut ell_coeffs: Vec<EllCoeffTarget> = Vec::new();
        let mut r = G2ProjectiveTarget { x: q.x, y: q.y, z: one };
        let mut i: usize = 0;
        assert forall|w: Seq<nat>| #[trigger] satisfies(builder@, w) implies coeff_targets_value(
            ell_coeffs@,
            w,
        ) == prepare_coeffs(q.x.value(w), q.y.value(w), 0) by {
            assert(coeff_targets_value(ell_coeffs@, w) =~= Seq::empty());
        }
        while i < LOOP_STEPS
            invariant
                i <= LOOP_STEPS,
                !q.infinity,
                builder.wf(),
                appends_arithmetic(old(builder)@, start),
                appends_arithmetic(start, builder@),
                q.valid(builder@),
                two_inv.valid(builder@),
                coeff_b.valid(builder@),
                r.valid(builder@),
                coeffs_valid(ell_coeffs@, builder@),
                ell_coeffs@.len() == consumed(i as nat),
                forall|w: Seq<nat>| #[trigger]
                    satisfies(start, w) ==> two_inv.value(w) == crate::math::pairing::two_inv()
                        && coeff_b.value(w) == crate::math::pairing::coeff_b(),
                forall|w: Seq<nat>| #[trigger]
                    satisfies(builder@, w) ==> r.value(w) == prepare_point(
                        q.x.value(w),
                        q.y.value(w),
                        i as nat,
                    ) && coeff_targets_value(ell_coeffs@, w) == prepare_coeffs(
                        q.x.value(w),
                        q.y.value(w),
                        i as nat,
                    ),
            decreases LOOP_STEPS - i,
        {
            let ghost before = builder@;
            let ghost coeffs_before = ell_coeffs@;
            let ghost r_before = r;
            let (doubled, c) = r.double(builder, &two_inv, &coeff_b);
            ell_coeffs.push(c);
            r = doubled;
            let ghost doubled_gates = builder@;
            let ghost coeffs_doubled = ell_coeffs@;
            let bit = loop_bit_at(i);
            if bit {
                let (added, c) = r.add(builder, &q.x, &q.y);
                ell_coeffs.push(c);
                r = added;
            }
            proof {
                assert(appends_arithmetic(start, builder@));
                assert forall|w: Seq<nat>| #[trigger] satisfies(builder@, w) implies r.value(w)
                    == prepare_point(q.x.value(w), q.y.value(w), (i + 1) as nat)
                    && coeff_targets_value(ell_coeffs@, w) == prepare_coeffs(
                    q.x.value(w),
                    q.y.value(w),
                    (i + 1) as nat,
                ) by {
                    assert(satisfies(doubled_gates, w));
                    assert(satisfies(before, w));
                    assert(satisfies(start, w));
                    assert(coeff_targets_value(coeffs_doubled, w) =~= coeff_targets_value(
                        coeffs_before,
                        w,
                    ).push(double_coeff(r_before.value(w))));
                    if bit {
                        assert(coeff_targets_value(ell_coeffs@, w) =~= coeff_targets_value(
                            coeffs_doubled,
                            w,
                        ).push(add_coeff(doubled.value(w), q.x.value(w), q.y.value(w))));
                    }
                }
                assert(coeffs_valid(ell_coeffs@, builder@)) by {
                    assert forall|k: int| 0 <= k < ell_coeffs@.len() implies coeff_valid(
                        #[trigger] ell_coeffs@[k],
                        builder@,
                    ) by {
                        if k < coeffs_before.len() {
                            assert(coeff_valid(coeffs_before[k], before));
                        }
                    }
                }
            }
            i += 1;
        }
        G2PreparedTarget { ell_coeffs, infinity: false }
    }
}

} // verus!
