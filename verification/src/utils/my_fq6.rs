//! The six coefficients of a sextic element in the order of the circuit
//! form.

use crate::math::tower::{fq6_coefficients, fq6_from_coefficients};
use crate::native::fields::{Fq, Fq6};
use vstd::prelude::*;

verus! {

/// A sextic element by its coefficients of `1`, `v`, `v^2`, `u`, `u v`,
/// `u v^2`, in this order.
#[derive(Clone, Copy, Debug, PartialEq, Eq)]
pub struct MyFq6 {
    pub coeffs: [Fq; 6],
}

impl MyFq6 {
    pub open spec fn wf(&self) -> bool {
        forall|i: int| 0 <= i < 6 ==> (#[trigger] self.coeffs[i]).wf()
    }

    /// The values of the six coefficients.
    pub open spec fn values(&self) -> Seq<nat> {
        Seq::new(6, |i: int| self.coeffs[i]@)
    }

    /// The same element, from the order of the tower.
    pub fn from(c: Fq6) -> (r: MyFq6)
        requires
            c.wf(),
        ensures
            r.wf(),
            r.values() == fq6_coefficients(c@),
    {
        let r = MyFq6 { coeffs: [c.c[0], c.c[2], c.c[4], c.c[1], c.c[3], c.c[5]] };
        assert(r.values() =~= fq6_coefficients(c@));
        r
    }

    /// The same element, in the order of the tower.
    pub fn into(self) -> (r: Fq6)
        requires
            self.wf(),
        ensures
            r.wf(),
            r@ == fq6_from_coefficients(self.values()),
    {
        let c = self.coeffs;
        Fq6 { c: [c[0], c[3], c[1], c[4], c[2], c[5]] }
    }
}

} // verus!
