//! The two forms side by side: what the circuit form constrains its wires
//! to carry is what the native form computes.

use crate::curves::g1::G1PreparedTarget;
use crate::curves::g2::{coeff_targets_value, G2PreparedTarget};
use crate::math::pairing::multi_miller_loop_value;
use crate::miller_loop::target_pairs;
use crate::native::miller_loop::{coeffs_value, prepared_pairs, G1Prepared, G2Prepared};
use vstd::prelude::*;

verus! {

/// Under the values `w`, the pair `(p_t, q_t)` of the circuit form reads as
/// the pair `(p, q)` of the native form: the same points are at infinity,
/// and the coordinates and coefficients of the others are the same.
pub open spec fn same_pair(
    p_t: G1PreparedTarget,
    q_t: G2PreparedTarget,
    p: G1Prepared,
    q: G2Prepared,
    w: Seq<nat>,
) -> bool {
    &&& p_t.0.infinity == p.0.infinity
    &&& q_t.infinity == q.infinity
    &&& !p.0.infinity ==> p_t.0.x.value(w) == p.0.x@ && p_t.0.y.value(w) == p.0.y@
    &&& !q.infinity ==> coeff_targets_value(q_t.ell_coeffs@, w) == coeffs_value(q.ell_coeffs@)
}

/// On pairs that read the same, the Miller loop of the circuit form stands
/// for the value that the Miller loop of the native form computes.
pub proof fn lemma_miller_loop_equivalence(
    a_t: Seq<G1PreparedTarget>,
    b_t: Seq<G2PreparedTarget>,
    a: Seq<G1Prepared>,
    b: Seq<G2Prepared>,
    w: Seq<nat>,
    size: nat,
    steps: nat,
)
    requires
        a_t.len() == a.len(),
        b_t.len() == a.len(),
        b.len() == a.len(),
        forall|i: int| 0 <= i < a.len() ==> same_pair(#[trigger] a_t[i], b_t[i], a[i], b[i], w),
    ensures
        multi_miller_loop_value(target_pairs(a_t, b_t, w), size, steps) == multi_miller_loop_value(
            prepared_pairs(a, b),
            size,
            steps,
        ),
{
    assert(target_pairs(a_t, b_t, w) =~= prepared_pairs(a, b)) by {
        assert forall|i: int| 0 <= i < a.len() implies target_pairs(a_t, b_t, w)[i]
            == prepared_pairs(a, b)[i] by {
            assert(same_pair(a_t[i], b_t[i], a[i], b[i], w));
        }
    }
}

} // verus!
