//! The extension tower over the base field.
//!
//! * the quadratic extension adjoins `u` with `u^2 = -1`;
//! * the sextic extension adjoins `v` with `v^3 = 1 + u`;
//! * the duodecimal extension adjoins `w` with `w^2 = v`.
//!
//! Each multiplication is written as the product of polynomials reduced by
//! the defining relation, which is what the executable forms are held to.

use crate::math::field::{fq_add, fq_mul, fq_neg, fq_sub, modulus};
use vstd::prelude::*;

verus! {

/// `c0 + c1 u`.
pub struct Fq2Value {
    pub c0: nat,
    pub c1: nat,
}

/// `c0 + c1 v + c2 v^2`.
pub struct Fq6Value {
    pub c0: Fq2Value,
    pub c1: Fq2Value,
    pub c2: Fq2Value,
}

/// `c0 + c1 w`.
pub struct Fq12Value {
    pub c0: Fq6Value,
    pub c1: Fq6Value,
}

pub open spec fn fq2_canonical(a: Fq2Value) -> bool {
    a.c0 < modulus() && a.c1 < modulus()
}

pub open spec fn fq2_zero() -> Fq2Value {
    Fq2Value { c0: 0, c1: 0 }
}

pub open spec fn fq2_one() -> Fq2Value {
    Fq2Value { c0: 1, c1: 0 }
}

pub open spec fn fq2_add(a: Fq2Value, b: Fq2Value) -> Fq2Value {
    Fq2Value { c0: fq_add(a.c0, b.c0), c1: fq_add(a.c1, b.c1) }
}

pub open spec fn fq2_sub(a: Fq2Value, b: Fq2Value) -> Fq2Value {
    Fq2Value { c0: fq_sub(a.c0, b.c0), c1: fq_sub(a.c1, b.c1) }
}

pub open spec fn fq2_neg(a: Fq2Value) -> Fq2Value {
    Fq2Value { c0: fq_neg(a.c0), c1: fq_neg(a.c1) }
}

pub open spec fn fq2_double(a: Fq2Value) -> Fq2Value {
    fq2_add(a, a)
}

/// `(a0 + a1 u)(b0 + b1 u)` with `u^2 = -1`.
pub open spec fn fq2_mul(a: Fq2Value, b: Fq2Value) -> Fq2Value {
    Fq2Value {
        c0: fq_sub(fq_mul(a.c0, b.c0), fq_mul(a.c1, b.c1)),
        c1: fq_add(fq_mul(a.c0, b.c1), fq_mul(a.c1, b.c0)),
    }
}

pub open spec fn fq2_square(a: Fq2Value) -> Fq2Value {
    fq2_mul(a, a)
}

/// The product with an element `k` of the base field.
pub open spec fn fq2_scale(a: Fq2Value, k: nat) -> Fq2Value {
    Fq2Value { c0: fq_mul(a.c0, k), c1: fq_mul(a.c1, k) }
}

/// The product with `1 + u`, the non-residue that defines the sextic
/// extension: `(a0 + a1 u)(1 + u) = (a0 - a1) + (a0 + a1) u`.
pub open spec fn fq2_mul_by_nonresidue(a: Fq2Value) -> Fq2Value {
    Fq2Value { c0: fq_sub(a.c0, a.c1), c1: fq_add(a.c0, a.c1) }
}

pub open spec fn fq6_canonical(a: Fq6Value) -> bool {
    fq2_canonical(a.c0) && fq2_canonical(a.c1) && fq2_canonical(a.c2)
}

pub open spec fn fq6_zero() -> Fq6Value {
    Fq6Value { c0: fq2_zero(), c1: fq2_zero(), c2: fq2_zero() }
}

pub open spec fn fq6_one() -> Fq6Value {
    Fq6Value { c0: fq2_one(), c1: fq2_zero(), c2: fq2_zero() }
}

pub open spec fn fq6_add(a: Fq6Value, b: Fq6Value) -> Fq6Value {
    Fq6Value { c0: fq2_add(a.c0, b.c0), c1: fq2_add(a.c1, b.c1), c2: fq2_add(a.c2, b.c2) }
}

pub open spec fn fq6_sub(a: Fq6Value, b: Fq6Value) -> Fq6Value {
    Fq6Value { c0: fq2_sub(a.c0, b.c0), c1: fq2_sub(a.c1, b.c1), c2: fq2_sub(a.c2, b.c2) }
}

pub open spec fn fq6_neg(a: Fq6Value) -> Fq6Value {
    Fq6Value { c0: fq2_neg(a.c0), c1: fq2_neg(a.c1), c2: fq2_neg(a.c2) }
}

/// `(a0 + a1 v + a2 v^2)(b0 + b1 v + b2 v^2)` with `v^3 = 1 + u`: the terms
/// of degree three and four fold back onto degrees zero and one.
pub open spec fn fq6_mul(a: Fq6Value, b: Fq6Value) -> Fq6Value {
    Fq6Value {
        c0: fq2_add(
            fq2_mul(a.c0, b.c0),
            fq2_mul_by_nonresidue(fq2_add(fq2_mul(a.c1, b.c2), fq2_mul(a.c2, b.c1))),
        ),
        c1: fq2_add(
            fq2_add(fq2_mul(a.c0, b.c1), fq2_mul(a.c1, b.c0)),
            fq2_mul_by_nonresidue(fq2_mul(a.c2, b.c2)),
        ),
        c2: fq2_add(fq2_add(fq2_mul(a.c0, b.c2), fq2_mul(a.c1, b.c1)), fq2_mul(a.c2, b.c0)),
    }
}

/// The product with `v`: `(a0 + a1 v + a2 v^2) v = a2 (1 + u) + a0 v + a1 v^2`.
pub open spec fn fq6_mul_by_nonresidue(a: Fq6Value) -> Fq6Value {
    Fq6Value { c0: fq2_mul_by_nonresidue(a.c2), c1: a.c0, c2: a.c1 }
}

/// `c0 + c1 v`, an element whose coefficient of `v^2` is zero.
pub open spec fn fq6_embed_01(c0: Fq2Value, c1: Fq2Value) -> Fq6Value {
    Fq6Value { c0, c1, c2: fq2_zero() }
}

/// `c1 v`, an element with only the middle coefficient.
pub open spec fn fq6_embed_1(c1: Fq2Value) -> Fq6Value {
    Fq6Value { c0: fq2_zero(), c1, c2: fq2_zero() }
}

/// `r` is the multiplicative inverse of `a`.
pub open spec fn fq6_is_inverse(a: Fq6Value, r: Fq6Value) -> bool {
    fq6_canonical(r) && fq6_mul(a, r) == fq6_one()
}

/// The multiplicative inverse of `a`; meaningful where `a` has one.
pub open spec fn fq6_inv(a: Fq6Value) -> Fq6Value {
    choose|r: Fq6Value| fq6_is_inverse(a, r)
}

/// The six base-field coefficients of `a` in the order in which the circuit
/// form keeps them: the coefficients of `1`, `v`, `v^2`, then those of `u`,
/// `u v`, `u v^2`.
pub open spec fn fq6_coefficients(a: Fq6Value) -> Seq<nat> {
    seq![a.c0.c0, a.c1.c0, a.c2.c0, a.c0.c1, a.c1.c1, a.c2.c1]
}

/// The element whose coefficients, in the order of `fq6_coefficients`, are
/// the first six entries of `s`.
pub open spec fn fq6_from_coefficients(s: Seq<nat>) -> Fq6Value {
    Fq6Value {
        c0: Fq2Value { c0: s[0], c1: s[3] },
        c1: Fq2Value { c0: s[1], c1: s[4] },
        c2: Fq2Value { c0: s[2], c1: s[5] },
    }
}

pub open spec fn fq12_canonical(a: Fq12Value) -> bool {
    fq6_canonical(a.c0) && fq6_canonical(a.c1)
}

pub open spec fn fq12_one() -> Fq12Value {
    Fq12Value { c0: fq6_one(), c1: fq6_zero() }
}

/// `(a0 + a1 w)(b0 + b1 w)` with `w^2 = v`.
pub open spec fn fq12_mul(a: Fq12Value, b: Fq12Value) -> Fq12Value {
    Fq12Value {
        c0: fq6_add(fq6_mul(a.c0, b.c0), fq6_mul_by_nonresidue(fq6_mul(a.c1, b.c1))),
        c1: fq6_add(fq6_mul(a.c0, b.c1), fq6_mul(a.c1, b.c0)),
    }
}

/// The product of the first `n` elements of `s`, taken from the left and
/// starting from one.
pub open spec fn fq12_product(s: Seq<Fq12Value>, n: nat) -> Fq12Value
    decreases n,
{
    if n == 0 {
        fq12_one()
    } else {
        fq12_mul(fq12_product(s, (n - 1) as nat), s[n - 1])
    }
}

pub open spec fn fq12_square(a: Fq12Value) -> Fq12Value {
    fq12_mul(a, a)
}

/// `c0 - c1 w`.
pub open spec fn fq12_conjugate(a: Fq12Value) -> Fq12Value {
    Fq12Value { c0: a.c0, c1: fq6_neg(a.c1) }
}

/// `(c0 + c1 v) + (c4 v) w`: the shape of a line evaluation, with nine of
/// its twelve coefficients zero.
pub open spec fn fq12_sparse_014(c0: Fq2Value, c1: Fq2Value, c4: Fq2Value) -> Fq12Value {
    Fq12Value { c0: fq6_embed_01(c0, c1), c1: fq6_embed_1(c4) }
}

} // verus!
