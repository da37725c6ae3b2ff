//! Wires that carry elements of the base field, and the gates on them.

use crate::circuit::builder::{
    appends, appends_arithmetic, satisfies, CircuitBuilder, Gate,
};
use crate::math::field::{fq_add, fq_mul, fq_neg, fq_sub};
use crate::native::fields::Fq;
use vstd::prelude::*;

verus! {

/// A wire that carries an element of the base field.
#[derive(Clone, Copy, Debug, PartialEq, Eq)]
pub struct FqTarget {
    pub wire: usize,
}

/// A wire that carries a flag.
#[derive(Clone, Copy, Debug, PartialEq, Eq)]
pub struct BoolTarget {
    pub wire: usize,
}

impl BoolTarget {
    /// The wire belongs to the circuit and can only carry zero or one.
    pub open spec fn valid(&self, gates: Seq<Gate>) -> bool {
        self.wire < gates.len() && gates[self.wire as int].is_flag()
    }

    /// Whether the flag is set under the values `w`.
    pub open spec fn value(&self, w: Seq<nat>) -> bool {
        w[self.wire as int] != 0
    }

    /// A flag left to the witness.
    pub fn empty(builder: &mut CircuitBuilder) -> (r: Self)
        requires
            old(builder).wf(),
        ensures
            final(builder)@ == old(builder)@.push(Gate::VirtualBool),
            r.wire == old(builder)@.len(),
            appends(old(builder)@, final(builder)@),
            r.valid(final(builder)@),
    {
        let wire = builder.push(Gate::VirtualBool);
        BoolTarget { wire }
    }

    /// A flag fixed by the circuit.
    pub fn constant(builder: &mut CircuitBuilder, flag: bool) -> (r: Self)
        requires
            old(builder).wf(),
        ensures
            appends_arithmetic(old(builder)@, final(builder)@),
            final(builder)@.len() == old(builder)@.len() + 1,
            r.wire == old(builder)@.len(),
            r.valid(final(builder)@),
            forall|w: Seq<nat>| #[trigger] satisfies(final(builder)@, w) ==> r.value(w) == flag,
    {
        let c = if flag {
            Fq::one()
        } else {
            Fq::zero()
        };
        let wire = builder.push(Gate::Constant(c));
        BoolTarget { wire }
    }
}

impl FqTarget {
    /// The wire belongs to the circuit.
    pub open spec fn valid(&self, gates: Seq<Gate>) -> bool {
        self.wire < gates.len()
    }

    /// The element on the wire under the values `w`.
    pub open spec fn value(&self, w: Seq<nat>) -> nat {
        w[self.wire as int]
    }

    /// A fresh wire under no constraint.
    pub fn empty(builder: &mut CircuitBuilder) -> (r: Self)
        requires
            old(builder).wf(),
        ensures
            final(builder)@ == old(builder)@.push(Gate::Virtual),
            r.wire == old(builder)@.len(),
            appends(old(builder)@, final(builder)@),
            r.valid(final(builder)@),
    {
        let wire = builder.push(Gate::Virtual);
        FqTarget { wire }
    }

    /// A wire that carries `c`.
    pub fn constant(builder: &mut CircuitBuilder, c: Fq) -> (r: Self)
        requires
            old(builder).wf(),
            c.wf(),
        ensures
            final(builder)@ == old(builder)@.push(Gate::Constant(c)),
            r.wire == old(builder)@.len(),
            appends_arithmetic(old(builder)@, final(builder)@),
            r.valid(final(builder)@),
            forall|w: Seq<nat>| #[trigger] satisfies(final(builder)@, w) ==> r.value(w) == c@,
    {
        let wire = builder.push(Gate::Constant(c));
        FqTarget { wire }
    }

    pub fn add(&self, builder: &mut CircuitBuilder, rhs: &Self) -> (r: Self)
        requires
            old(builder).wf(),
            self.valid(old(builder)@),
            rhs.valid(old(builder)@),
        ensures
            final(builder)@ == old(builder)@.push(Gate::Add(self.wire, rhs.wire)),
            r.wire == old(builder)@.len(),
            appends_arithmetic(old(builder)@, final(builder)@),
            r.valid(final(builder)@),
            forall|w: Seq<nat>| #[trigger]
                satisfies(final(builder)@, w) ==> r.value(w) == fq_add(
                    self.value(w),
                    rhs.value(w),
                ),
    {
        let wire = builder.push(Gate::Add(self.wire, rhs.wire));
        FqTarget { wire }
    }

    pub fn sub(&self, builder: &mut CircuitBuilder, rhs: &Self) -> (r: Self)
        requires
            old(builder).wf(),
            self.valid(old(builder)@),
            rhs.valid(old(builder)@),
        ensures
            final(builder)@ == old(builder)@.push(Gate::Sub(self.wire, rhs.wire)),
            r.wire == old(builder)@.len(),
            appends_arithmetic(old(builder)@, final(builder)@),
            r.valid(final(builder)@),
            forall|w: Seq<nat>| #[trigger]
                satisfies(final(builder)@, w) ==> r.value(w) == fq_sub(
                    self.value(w),
                    rhs.value(w),
                ),
    {
        let wire = builder.push(Gate::Sub(self.wire, rhs.wire));
        FqTarget { wire }
    }

    pub fn mul(&self, builder: &mut CircuitBuilder, rhs: &Self) -> (r: Self)
        requires
            old(builder).wf(),
            self.valid(old(builder)@),
            rhs.valid(old(builder)@),
        ensures
            final(builder)@ == old(builder)@.push(Gate::Mul(self.wire, rhs.wire)),
            r.wire == old(builder)@.len(),
            appends_arithmetic(old(builder)@, final(builder)@),
            r.valid(final(builder)@),
            forall|w: Seq<nat>| #[trigger]
                satisfies(final(builder)@, w) ==> r.value(w) == fq_mul(
                    self.value(w),
                    rhs.value(w),
                ),
    {
        let wire = builder.push(Gate::Mul(self.wire, rhs.wire));
        FqTarget { wire }
    }

    pub fn neg(&self, builder: &mut CircuitBuilder) -> (r: Self)
        requires
            old(builder).wf(),
            self.valid(old(builder)@),
        ensures
            final(builder)@ == old(builder)@.push(Gate::Neg(self.wire)),
            r.wire == old(builder)@.len(),
            appends_arithmetic(old(builder)@, final(builder)@),
            r.valid(final(builder)@),
            forall|w: Seq<nat>| #[trigger]
                satisfies(final(builder)@, w) ==> r.value(w) == fq_neg(self.value(w)),
    {
        let wire = builder.push(Gate::Neg(self.wire));
        FqTarget { wire }
    }

    /// A wire that carries what `a` carries where `flag` is set, and else
    /// what `b` carries.
    pub fn select(builder: &mut CircuitBuilder, a: &Self, b: &Self, flag: &BoolTarget) -> (r: Self)
        requires
            old(builder).wf(),
            a.valid(old(builder)@),
            b.valid(old(builder)@),
            flag.valid(old(builder)@),
        ensures
            final(builder)@ == old(builder)@.push(Gate::Select(flag.wire, a.wire, b.wire)),
            r.wire == old(builder)@.len(),
            appends_arithmetic(old(builder)@, final(builder)@),
            r.valid(final(builder)@),
            forall|w: Seq<nat>| #[trigger]
                satisfies(final(builder)@, w) ==> r.value(w) == if flag.value(w) {
                    a.value(w)
                } else {
                    b.value(w)
                },
    {
        let wire = builder.push(Gate::Select(flag.wire, a.wire, b.wire));
        FqTarget { wire }
    }

    /// Constrains the two wires to carry the same element.
    pub fn connect(builder: &mut CircuitBuilder, lhs: &Self, rhs: &Self)
        requires
            old(builder).wf(),
            lhs.valid(old(builder)@),
            rhs.valid(old(builder)@),
        ensures
            final(builder)@ == old(builder)@.push(Gate::Connect(lhs.wire, rhs.wire)),
            appends(old(builder)@, final(builder)@),
            forall|w: Seq<nat>| #[trigger]
                satisfies(final(builder)@, w) ==> lhs.value(w) == rhs.value(w),
    {
        builder.push(Gate::Connect(lhs.wire, rhs.wire));
    }
}

} // verus!
