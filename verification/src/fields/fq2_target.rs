//! The quadratic extension in circuit form.

use crate::circuit::builder::{
    appends, appends_arithmetic, satisfies, CircuitBuilder, Gate,
};
use crate::fields::fq_target::{BoolTarget, FqTarget};
use crate::math::tower::{
    fq2_add, fq2_mul, fq2_mul_by_nonresidue, fq2_neg, fq2_scale, fq2_sub, Fq2Value,
};
use crate::native::fields::Fq2;
use vstd::prelude::*;

verus! {

/// An element of the quadratic extension on two wires: the coefficient of
/// `1`, then that of `u`.
#[derive(Clone, Copy, Debug, PartialEq, Eq)]
pub struct Fq2Target {
    pub coeffs: [FqTarget; 2],
}

impl Fq2Target {
    pub open spec fn valid(&self, gates: Seq<Gate>) -> bool {
        self.coeffs[0].valid(gates) && self.coeffs[1].valid(gates)
    }

    /// The element on the wires under the values `w`.
    pub open spec fn value(&self, w: Seq<nat>) -> Fq2Value {
        Fq2Value { c0: self.coeffs[0].value(w), c1: self.coeffs[1].value(w) }
    }

    /// Two fresh wires under no constraint.
    pub fn empty(builder: &mut CircuitBuilder) -> (r: Self)
        requires
            old(builder).wf(),
        ensures
            appends(old(builder)@, final(builder)@),
            r.valid(final(builder)@),
    {
        let c0 = FqTarget::empty(builder);
        let c1 = FqTarget::empty(builder);
        Fq2Target { coeffs: [c0, c1] }
    }

    /// The element on the two given wires.
    pub fn new(coeffs: Vec<FqTarget>) -> (r: Self)
        requires
            coeffs.len() == 2,
        ensures
            r.coeffs@ == coeffs@,
    {
        let r = Fq2Target { coeffs: [coeffs[0], coeffs[1]] };
        assert(r.coeffs@ =~= coeffs@);
        r
    }

    pub fn constant(builder: &mut CircuitBuilder, c: Fq2) -> (r: Self)
        requires
            old(builder).wf(),
            c.wf(),
        ensures
            appends_arithmetic(old(builder)@, final(builder)@),
            r.valid(final(builder)@),
            forall|w: Seq<nat>| #[trigger] satisfies(final(builder)@, w) ==> r.value(w) == c@,
    {
        let c0 = FqTarget::constant(builder, c.c[0]);
        let c1 = FqTarget::constant(builder, c.c[1]);
        Fq2Target { coeffs: [c0, c1] }
    }

    pub fn connect(builder: &mut CircuitBuilder, lhs: &Self, rhs: &Self)
        requires
            old(builder).wf(),
            lhs.valid(old(builder)@),
            rhs.valid(old(builder)@),
        ensures
            appends(old(builder)@, final(builder)@),
            forall|w: Seq<nat>| #[trigger]
                satisfies(final(builder)@, w) ==> lhs.value(w) == rhs.value(w),
    {
        FqTarget::connect(builder, &lhs.coeffs[0], &rhs.coeffs[0]);
        FqTarget::connect(builder, &lhs.coeffs[1], &rhs.coeffs[1]);
    }

    pub fn select(builder: &mut CircuitBuilder, a: &Self, b: &Self, flag: &BoolTarget) -> (r: Self)
        requires
            old(builder).wf(),
            a.valid(old(builder)@),
            b.valid(old(builder)@),
            flag.valid(old(builder)@),
        ensures
            appends_arithmetic(old(builder)@, final(builder)@),
            r.valid(final(builder)@),
            forall|w: Seq<nat>| #[trigger]
                satisfies(final(builder)@, w) ==> r.value(w) == if flag.value(w) {
                    a.value(w)
                } else {
                    b.value(w)
                },
    {
        let c0 = FqTarget::select(builder, &a.coeffs[0], &b.coeffs[0], flag);
        let c1 = FqTarget::select(builder, &a.coeffs[1], &b.coeffs[1], flag);
        Fq2Target { coeffs: [c0, c1] }
    }

    pub fn add(&self, builder: &mut CircuitBuilder, rhs: &Self) -> (r: Self)
        requires
            old(builder).wf(),
            self.valid(old(builder)@),
            rhs.valid(old(builder)@),
        ensures
            appends_arithmetic(old(builder)@, final(builder)@),
            r.valid(final(builder)@),
            forall|w: Seq<nat>| #[trigger]
                satisfies(final(builder)@, w) ==> r.value(w) == fq2_add(
                    self.value(w),
                    rhs.value(w),
                ),
    {
        let c0 = self.coeffs[0].add(builder, &rhs.coeffs[0]);
        let c1 = self.coeffs[1].add(builder, &rhs.coeffs[1]);
        Fq2Target { coeffs: [c0, c1] }
    }

    pub fn sub(&self, builder: &mut CircuitBuilder, rhs: &Self) -> (r: Self)
        requires
            old(builder).wf(),
            self.valid(old(builder)@),
            rhs.valid(old(builder)@),
        ensures
            appends_arithmetic(old(builder)@, final(builder)@),
            r.valid(final(builder)@),
            forall|w: Seq<nat>| #[trigger]
                satisfies(final(builder)@, w) ==> r.value(w) == fq2_sub(
                    self.value(w),
                    rhs.value(w),
                ),
    {
        let c0 = self.coeffs[0].sub(builder, &rhs.coeffs[0]);
        let c1 = self.coeffs[1].sub(builder, &rhs.coeffs[1]);
        Fq2Target { coeffs: [c0, c1] }
    }

    pub fn neg(&self, builder: &mut CircuitBuilder) -> (r: Self)
        requires
            old(builder).wf(),
            self.valid(old(builder)@),
        ensures
            appends_arithmetic(old(builder)@, final(builder)@),
            r.valid(final(builder)@),
            forall|w: Seq<nat>| #[trigger]
                satisfies(final(builder)@, w) ==> r.value(w) == fq2_neg(self.value(w)),
    {
        let c0 = self.coeffs[0].neg(builder);
        let c1 = self.coeffs[1].neg(builder);
        Fq2Target { coeffs: [c0, c1] }
    }

    /// The product `(a0 + a1 u)(b0 + b1 u) = (a0 b0 - a1 b1) + (a0 b1 + a1 b0) u`.
    pub fn mul(&self, builder: &mut CircuitBuilder, rhs: &Self) -> (r: Self)
        requires
            old(builder).wf(),
            self.valid(old(builder)@),
            rhs.valid(old(builder)@),
        ensures
            appends_arithmetic(old(builder)@, final(builder)@),
            r.valid(final(builder)@),
            forall|w: Seq<nat>| #[trigger]
                satisfies(final(builder)@, w) ==> r.value(w) == fq2_mul(
                    self.value(w),
                    rhs.value(w),
                ),
    {
        let a0_b0 = self.coeffs[0].mul(builder, &rhs.coeffs[0]);
        let a1_b1 = self.coeffs[1].mul(builder, &rhs.coeffs[1]);
        let c0 = a0_b0.sub(builder, &a1_b1);
        let a0_b1 = self.coeffs[0].mul(builder, &rhs.coeffs[1]);
        let a1_b0 = self.coeffs[1].mul(builder, &rhs.coeffs[0]);
        let c1 = a0_b1.add(builder, &a1_b0);
        Fq2Target { coeffs: [c0, c1] }
    }

    /// The product with the element of the base field on the wire `fp`.
    pub fn mul_assign_by_fp(&self, builder: &mut CircuitBuilder, fp: FqTarget) -> (r: Self)
        requires
            old(builder).wf(),
            self.valid(old(builder)@),
            fp.valid(old(builder)@),
        ensures
            appends_arithmetic(old(builder)@, final(builder)@),
            r.valid(final(builder)@),
            forall|w: Seq<nat>| #[trigger]
                satisfies(final(builder)@, w) ==> r.value(w) == fq2_scale(
                    self.value(w),
                    fp.value(w),
                ),
    {
        let c0 = self.coeffs[0].mul(builder, &fp);
        let c1 = self.coeffs[1].mul(builder, &fp);
        Fq2Target { coeffs: [c0, c1] }
    }

    /// The product with `1 + u`.
    pub fn mul_by_nonresidue(&self, builder: &mut CircuitBuilder) -> (r: Self)
        requires
            old(builder).wf(),
            self.valid(old(builder)@),
        ensures
            appends_arithmetic(old(builder)@, final(builder)@),
            r.valid(final(builder)@),
            forall|w: Seq<nat>| #[trigger]
                satisfies(final(builder)@, w) ==> r.value(w) == fq2_mul_by_nonresidue(
                    self.value(w),
                ),
    {
        let c0 = self.coeffs[0].sub(builder, &self.coeffs[1]);
        let c1 = self.coeffs[0].add(builder, &self.coeffs[1]);
        Fq2Target { coeffs: [c0, c1] }
    }
}

} // verus!
