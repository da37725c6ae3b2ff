//! The duodecimal extension in circuit form.

use crate::circuit::builder::{appends, appends_arithmetic, satisfies, CircuitBuilder, Gate};
use crate::fields::fq2_target::Fq2Target;
use crate::fields::fq6_target::Fq6Target;
use crate::math::formulas::lemma_fq12_one_left;
use crate::math::tower::{
    fq12_canonical, fq12_conjugate, fq12_mul, fq12_one, fq12_product, fq12_sparse_014,
    Fq12Value,
};
use crate::native::fields::Fq12;
use vstd::prelude::*;

verus! {

/// An element `c0 + c1 w` of the duodecimal extension on twelve wires.
#[derive(Clone, Copy, Debug, PartialEq, Eq)]
pub struct Fq12Target {
    pub c0: Fq6Target,
    pub c1: Fq6Target,
}

/// The elements on the wires `t` under the values `w`.
pub open spec fn values(t: Seq<Fq12Target>, w: Seq<nat>) -> Seq<Fq12Value> {
    Seq::new(t.len(), |i: int| t[i].value(w))
}

/// In a satisfied circuit an element on its wires is canonical.
pub proof fn lemma_fq12_target_canonical(t: Fq12Target, gates: Seq<Gate>, w: Seq<nat>)
    requires
        t.valid(gates),
        satisfies(gates, w),
    ensures
        fq12_canonical(t.value(w)),
{
}

impl Fq12Target {
    pub open spec fn valid(&self, gates: Seq<Gate>) -> bool {
        self.c0.valid(gates) && self.c1.valid(gates)
    }

    /// The element on the wires under the values `w`.
    pub open spec fn value(&self, w: Seq<nat>) -> Fq12Value {
        Fq12Value { c0: self.c0.value(w), c1: self.c1.value(w) }
    }

    /// Wires that carry the element `c`.
    pub fn constant(builder: &mut CircuitBuilder, c: Fq12) -> (r: Self)
        requires
            old(builder).wf(),
            c.wf(),
        ensures
            appends_arithmetic(old(builder)@, final(builder)@),
            r.valid(final(builder)@),
            forall|w: Seq<nat>| #[trigger] satisfies(final(builder)@, w) ==> r.value(w) == c@,
    {
        let c0 = Fq6Target::constant(builder, c.c0());
        let c1 = Fq6Target::constant(builder, c.c1());
        Fq12Target { c0, c1 }
    }

    /// Constrains the two elements to be the same.
    pub fn connect(builder: &mut CircuitBuilder, lhs: &Self, rhs: &Self)
        requires
            old(builder).wf(),
            lhs.valid(old(builder)@),
            rhs.valid(old(builder)@),
        ensures
            appends(old(builder)@, final(builder)@),
            forall|w: Seq<nat>| #[trigger]
                satisfies(final(builder)@, w) ==> lhs.value(w) == rhs.value(w),
    {
        Fq6Target::connect(builder, &lhs.c0, &rhs.c0);
        Fq6Target::connect(builder, &lhs.c1, &rhs.c1);
    }

    /// The product `(a0 + a1 w)(b0 + b1 w) = (a0 b0 + a1 b1 v) + (a0 b1 + a1 b0) w`.
    pub fn mul(&self, builder: &mut CircuitBuilder, rhs: &Self) -> (r: Self)
        requires
            old(builder).wf(),
            self.valid(old(builder)@),
            rhs.valid(old(builder)@),
        ensures
            appends_arithmetic(old(builder)@, final(builder)@),
            r.valid(final(builder)@),
            forall|w: Seq<nat>| #[trigger]
                satisfies(final(builder)@, w) ==> r.value(w) == fq12_mul(
                    self.value(w),
                    rhs.value(w),
                ),
    {
        let a0_b0 = self.c0.mul(builder, &rhs.c0);
        let a1_b1 = self.c1.mul(builder, &rhs.c1);
        let a1_b1_v = a1_b1.mul_by_nonresidue(builder);
        let c0 = a0_b0.add(builder, &a1_b1_v);
        let a0_b1 = self.c0.mul(builder, &rhs.c1);
        let a1_b0 = self.c1.mul(builder, &rhs.c0);
        let c1 = a0_b1.add(builder, &a1_b0);
        Fq12Target { c0, c1 }
    }

    /// The product with the sparse element `(c0 + c1 v) + (c4 v) w`, by
    /// sparse products in the sextic extension.
    pub fn mul_by_014(
        &self,
        builder: &mut CircuitBuilder,
        c0: &Fq2Target,
        c1: &Fq2Target,
        c4: &Fq2Target,
    ) -> (r: Self)
        requires
            old(builder).wf(),
            self.valid(old(builder)@),
            c0.valid(old(builder)@),
            c1.valid(old(builder)@),
            c4.valid(old(builder)@),
        ensures
            appends_arithmetic(old(builder)@, final(builder)@),
            r.valid(final(builder)@),
            forall|w: Seq<nat>| #[trigger]
                satisfies(final(builder)@, w) ==> r.value(w) == fq12_mul(
                    self.value(w),
                    fq12_sparse_014(c0.value(w), c1.value(w), c4.value(w)),
                ),
    {
        let a0_b0 = self.c0.mul_by_01(builder, c0, c1);
        let a1_b1 = self.c1.mul_by_1(builder, c4);
        let a1_b1_v = a1_b1.mul_by_nonresidue(builder);
        let r0 = a0_b0.add(builder, &a1_b1_v);
        let a0_b1 = self.c0.mul_by_1(builder, c4);
        let a1_b0 = self.c1.mul_by_01(builder, c0, c1);
        let r1 = a0_b1.add(builder, &a1_b0);
        Fq12Target { c0: r0, c1: r1 }
    }

    /// The product of the elements in their order, or nothing where there
    /// is no element.
    pub fn multiply_elements(builder: &mut CircuitBuilder, elements: &Vec<Self>) -> (r: Option<
        Self,
    >)
        requires
            old(builder).wf(),
            forall|i: int| 0 <= i < elements.len() ==> (#[trigger] elements[i]).valid(old(builder)@),
        ensures
            appends_arithmetic(old(builder)@, final(builder)@),
            r is None <==> elements.len() == 0,
            r matches Some(product) ==> product.valid(final(builder)@) && forall|w: Seq<nat>|
                #[trigger] satisfies(final(builder)@, w) ==> product.value(w) == fq12_product(
                    values(elements@, w),
                    elements.len() as nat,
                ),
    {
        if elements.len() == 0 {
            return None;
        }
        let mut product = elements[0];
        let mut i: usize = 1;
        proof {
            assert forall|w: Seq<nat>| #[trigger] satisfies(builder@, w) implies product.value(w)
                == fq12_product(values(elements@, w), 1) by {
                let v = values(elements@, w);
                assert(v[0] == elements[0].value(w));
                assert(fq12_product(v, 0) == fq12_one());
                lemma_fq12_target_canonical(elements[0], builder@, w);
                lemma_fq12_one_left(v[0]);
            }
        }
        while i < elements.len()
            invariant
                1 <= i <= elements.len(),
                builder.wf(),
                appends_arithmetic(old(builder)@, builder@),
                forall|k: int|
                    0 <= k < elements.len() ==> (#[trigger] elements[k]).valid(old(builder)@),
                product.valid(builder@),
                forall|w: Seq<nat>| #[trigger]
                    satisfies(builder@, w) ==> product.value(w) == fq12_product(
                        values(elements@, w),
                        i as nat,
                    ),
            decreases elements.len() - i,
        {
            let ghost before = builder@;
            let ghost factor = elements[i as int];
            assert(factor.valid(old(builder)@));
            let next = product.mul(builder, &elements[i]);
            proof {
                assert forall|w: Seq<nat>| #[trigger] satisfies(builder@, w) implies next.value(w)
                    == fq12_product(values(elements@, w), (i + 1) as nat) by {
                    assert(satisfies(before, w));
                    assert(values(elements@, w)[i as int] == factor.value(w));
                }
            }
            product = next;
            i += 1;
        }
        Some(product)
    }

    /// The element with the coefficient of `w` negated.
    pub fn conjugate(&self, builder: &mut CircuitBuilder) -> (r: Self)
        requires
            old(builder).wf(),
            self.valid(old(builder)@),
        ensures
            appends_arithmetic(old(builder)@, final(builder)@),
            r.valid(final(builder)@),
            forall|w: Seq<nat>| #[trigger]
                satisfies(final(builder)@, w) ==> r.value(w) == fq12_conjugate(self.value(w)),
    {
        let c1 = self.c1.neg(builder);
        Fq12Target { c0: self.c0, c1 }
    }
}

} // verus!
