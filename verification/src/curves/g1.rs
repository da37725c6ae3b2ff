//! Points of the base curve on wires.

use crate::circuit::builder::{appends_arithmetic, satisfies, CircuitBuilder, Gate};
use crate::fields::fq_target::FqTarget;
use crate::native::curves::G1Affine;
use vstd::prelude::*;

verus! {

/// A point of the base curve: wires for its coordinates, or the point at
/// infinity, which is known when the circuit is built.
#[derive(Clone, Copy, Debug, PartialEq, Eq)]
pub struct G1AffineTarget {
    pub x: FqTarget,
    pub y: FqTarget,
    pub infinity: bool,
}

#[derive(Clone, Copy, Debug, PartialEq, Eq)]
pub struct G1PreparedTarget(pub G1AffineTarget);

impl G1AffineTarget {
    /// The wires of a finite point belong to the circuit; those of the
    /// point at infinity are never read.
    pub open spec fn valid(&self, gates: Seq<Gate>) -> bool {
        !self.infinity ==> self.x.valid(gates) && self.y.valid(gates)
    }

    pub fn is_zero(&self) -> (r: bool)
        ensures
            r == self.infinity,
    {
        self.infinity
    }

    /// The wires of the coordinates, unless this is the point at infinity.
    pub fn xy(&self) -> (r: Option<(&FqTarget, &FqTarget)>)
        ensures
            self.infinity ==> r is None,
            !self.infinity ==> r == Some((&self.x, &self.y)),
    {
        if self.infinity {
            None
        } else {
            Some((&self.x, &self.y))
        }
    }

    /// Wires that carry the coordinates of the finite point `g1`.
    pub fn constant(builder: &mut CircuitBuilder, g1: G1Affine) -> (r: Self)
        requires
            old(builder).wf(),
            !g1.infinity,
            g1.wf(),
        ensures
            appends_arithmetic(old(builder)@, final(builder)@),
            !r.infinity,
            r.valid(final(builder)@),
            forall|w: Seq<nat>| #[trigger]
                satisfies(final(builder)@, w) ==> r.x.value(w) == g1.x@ && r.y.value(w) == g1.y@,
    {
        let x = FqTarget::constant(builder, g1.x);
        let y = FqTarget::constant(builder, g1.y);
        Self { x, y, infinity: false }
    }
}

} // verus!
