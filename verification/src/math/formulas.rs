//! The formulas by which the circuit form multiplies in the sextic
//! extension, on the six coefficients of an element, and the proofs that
//! they compute the products of the tower.

use crate::math::field::{
    fq_add, fq_mul, fq_neg, fq_sub, lemma_normal_forms, lemma_products_reduce,
    lemma_reduce_small, reduce,
};
use crate::math::tower::{
    fq12_canonical, fq12_mul, fq12_one, fq2_add, fq2_canonical, fq2_mul, fq2_mul_by_nonresidue,
    fq2_sub, fq6_canonical, fq6_embed_01, fq6_embed_1, fq6_mul, fq6_one, fq6_zero, Fq12Value,
    Fq2Value, Fq6Value,
};
use vstd::prelude::*;

verus! {

/// A polynomial of degree four over the base field, by its coefficients
/// from degree zero up.
pub struct Quartic {
    pub d0: nat,
    pub d1: nat,
    pub d2: nat,
    pub d3: nat,
    pub d4: nat,
}

/// The product of `a0 + a1 v + a2 v^2` and `b0 + b1 v + b2 v^2` as
/// polynomials over the base field.
pub open spec fn convolution(a0: nat, a1: nat, a2: nat, b0: nat, b1: nat, b2: nat) -> Quartic {
    Quartic {
        d0: fq_mul(a0, b0),
        d1: fq_add(fq_mul(a0, b1), fq_mul(a1, b0)),
        d2: fq_add(fq_add(fq_mul(a0, b2), fq_mul(a1, b1)), fq_mul(a2, b0)),
        d3: fq_add(fq_mul(a1, b2), fq_mul(a2, b1)),
        d4: fq_mul(a2, b2),
    }
}

pub open spec fn quartic_sub(p: Quartic, q: Quartic) -> Quartic {
    Quartic {
        d0: fq_sub(p.d0, q.d0),
        d1: fq_sub(p.d1, q.d1),
        d2: fq_sub(p.d2, q.d2),
        d3: fq_sub(p.d3, q.d3),
        d4: fq_sub(p.d4, q.d4),
    }
}

pub open spec fn quartic_add(p: Quartic, q: Quartic) -> Quartic {
    Quartic {
        d0: fq_add(p.d0, q.d0),
        d1: fq_add(p.d1, q.d1),
        d2: fq_add(p.d2, q.d2),
        d3: fq_add(p.d3, q.d3),
        d4: fq_add(p.d4, q.d4),
    }
}

/// The element `re + im u`, with `re` and `im` polynomials in `v`, reduced
/// by `v^3 = 1 + u`.
///
/// A term `c v^(3 + i)` is `c (1 + u) v^i`. From `re` it adds `c` to both
/// parts. From `im`, where it stands for `c u`, it takes `c` from the part
/// without `u` and adds `c` to the part with `u`. The coefficients of `v^2`
/// receive nothing.
pub open spec fn fold_back(re: Quartic, im: Quartic) -> Fq6Value {
    Fq6Value {
        c0: Fq2Value {
            c0: fq_add(fq_add(re.d0, fq_mul(re.d3, 1)), fq_neg(im.d3)),
            c1: fq_add(fq_add(im.d0, re.d3), fq_mul(im.d3, 1)),
        },
        c1: Fq2Value {
            c0: fq_add(fq_add(re.d1, fq_mul(re.d4, 1)), fq_neg(im.d4)),
            c1: fq_add(fq_add(im.d1, re.d4), fq_mul(im.d4, 1)),
        },
        c2: Fq2Value { c0: re.d2, c1: im.d2 },
    }
}

/// The product of `a` and `b` from the four products of their parts with
/// and without `u`.
pub open spec fn schoolbook_product(a: Fq6Value, b: Fq6Value) -> Fq6Value {
    let a0b0 = convolution(a.c0.c0, a.c1.c0, a.c2.c0, b.c0.c0, b.c1.c0, b.c2.c0);
    let a0b1 = convolution(a.c0.c0, a.c1.c0, a.c2.c0, b.c0.c1, b.c1.c1, b.c2.c1);
    let a1b0 = convolution(a.c0.c1, a.c1.c1, a.c2.c1, b.c0.c0, b.c1.c0, b.c2.c0);
    let a1b1 = convolution(a.c0.c1, a.c1.c1, a.c2.c1, b.c0.c1, b.c1.c1, b.c2.c1);
    fold_back(quartic_sub(a0b0, a1b1), quartic_add(a0b1, a1b0))
}

/// The schoolbook formula computes the product of the sextic extension.
pub proof fn lemma_schoolbook_product(a: Fq6Value, b: Fq6Value)
    ensures
        schoolbook_product(a, b) == fq6_mul(a, b),
{
    let (p, q) = (schoolbook_product(a, b), fq6_mul(a, b));
    assert(p.c0.c0 == q.c0.c0) by {
        lemma_products_reduce();
        lemma_normal_forms();
        lemma_reduce_small(1);
    }
    assert(p.c0.c1 == q.c0.c1) by {
        lemma_products_reduce();
        lemma_normal_forms();
        lemma_reduce_small(1);
    }
    assert(p.c1.c0 == q.c1.c0) by {
        lemma_products_reduce();
        lemma_normal_forms();
        lemma_reduce_small(1);
    }
    assert(p.c1.c1 == q.c1.c1) by {
        lemma_products_reduce();
        lemma_normal_forms();
        lemma_reduce_small(1);
    }
    assert(p.c2.c0 == q.c2.c0) by {
        lemma_products_reduce();
        lemma_normal_forms();
    }
    assert(p.c2.c1 == q.c2.c1) by {
        lemma_products_reduce();
        lemma_normal_forms();
    }
}

/// The product of `x` and `c0 + c1 v`, with one product of sums in place of
/// two products for the coefficient of `v`.
pub open spec fn sparse_product_01(x: Fq6Value, c0: Fq2Value, c1: Fq2Value) -> Fq6Value {
    let a_a = fq2_mul(x.c0, c0);
    let b_b = fq2_mul(x.c1, c1);
    Fq6Value {
        c0: fq2_add(fq2_mul_by_nonresidue(fq2_mul(x.c2, c1)), a_a),
        c1: fq2_sub(fq2_sub(fq2_mul(fq2_add(c0, c1), fq2_add(x.c0, x.c1)), a_a), b_b),
        c2: fq2_add(fq2_mul(x.c2, c0), b_b),
    }
}

/// The product of `x` and `c1 v`, with products of sums from which the
/// part that does not belong is taken off again.
pub open spec fn sparse_product_1(x: Fq6Value, c1: Fq2Value) -> Fq6Value {
    let b_b = fq2_mul(x.c1, c1);
    Fq6Value {
        c0: fq2_mul_by_nonresidue(fq2_sub(fq2_mul(c1, fq2_add(x.c1, x.c2)), b_b)),
        c1: fq2_sub(fq2_mul(c1, fq2_add(x.c0, x.c1)), b_b),
        c2: b_b,
    }
}

/// `(a + b)(c + d) = ac + ad + bc + bd`.
proof fn lemma_expand(a: int, b: int, c: int, d: int)
    ensures
        (a + b) * (c + d) == a * c + a * d + b * c + b * d,
{
    assert((a + b) * (c + d) == a * c + a * d + b * c + b * d) by (nonlinear_arith);
}

/// `a (c + d) = ac + ad`.
proof fn lemma_distribute(a: int, c: int, d: int)
    ensures
        a * (c + d) == a * c + a * d,
{
    assert(a * (c + d) == a * c + a * d) by (nonlinear_arith);
}

/// The coefficients of canonical elements are their own reductions.
proof fn lemma_fq2_reduce(a: Fq2Value)
    requires
        fq2_canonical(a),
    ensures
        reduce(a.c0 as int) == a.c0,
        reduce(a.c1 as int) == a.c1,
{
    lemma_reduce_small(a.c0);
    lemma_reduce_small(a.c1);
}

/// The sparse formula computes the product with `c0 + c1 v`.
pub proof fn lemma_sparse_product_01(x: Fq6Value, c0: Fq2Value, c1: Fq2Value)
    requires
        fq6_canonical(x),
        fq2_canonical(c0),
        fq2_canonical(c1),
    ensures
        sparse_product_01(x, c0, c1) == fq6_mul(x, fq6_embed_01(c0, c1)),
{
    let (p, q) = (sparse_product_01(x, c0, c1), fq6_mul(x, fq6_embed_01(c0, c1)));
    lemma_fq2_reduce(x.c0);
    lemma_fq2_reduce(x.c1);
    lemma_fq2_reduce(x.c2);
    lemma_fq2_reduce(c0);
    lemma_fq2_reduce(c1);
    lemma_reduce_small(0);
    assert(p.c0 == q.c0) by {
        lemma_normal_forms();
    }
    assert(p.c1.c0 == q.c1.c0) by {
        lemma_normal_forms();
        lemma_expand(c0.c0 as int, c1.c0 as int, x.c0.c0 as int, x.c1.c0 as int);
        lemma_expand(c0.c1 as int, c1.c1 as int, x.c0.c1 as int, x.c1.c1 as int);
    }
    assert(p.c1.c1 == q.c1.c1) by {
        lemma_normal_forms();
        lemma_expand(c0.c0 as int, c1.c0 as int, x.c0.c1 as int, x.c1.c1 as int);
        lemma_expand(c0.c1 as int, c1.c1 as int, x.c0.c0 as int, x.c1.c0 as int);
    }
    assert(p.c2 == q.c2) by {
        lemma_normal_forms();
    }
}

/// The sparse formula computes the product with `c1 v`.
pub proof fn lemma_sparse_product_1(x: Fq6Value, c1: Fq2Value)
    requires
        fq6_canonical(x),
        fq2_canonical(c1),
    ensures
        sparse_product_1(x, c1) == fq6_mul(x, fq6_embed_1(c1)),
{
    let (p, q) = (sparse_product_1(x, c1), fq6_mul(x, fq6_embed_1(c1)));
    lemma_fq2_reduce(x.c0);
    lemma_fq2_reduce(x.c1);
    lemma_fq2_reduce(x.c2);
    lemma_fq2_reduce(c1);
    lemma_reduce_small(0);
    assert(p.c0 == q.c0) by {
        lemma_normal_forms();
        lemma_distribute(c1.c0 as int, x.c1.c0 as int, x.c2.c0 as int);
        lemma_distribute(c1.c1 as int, x.c1.c1 as int, x.c2.c1 as int);
        lemma_distribute(c1.c0 as int, x.c1.c1 as int, x.c2.c1 as int);
        lemma_distribute(c1.c1 as int, x.c1.c0 as int, x.c2.c0 as int);
    }
    assert(p.c1 == q.c1) by {
        lemma_normal_forms();
        lemma_distribute(c1.c0 as int, x.c0.c0 as int, x.c1.c0 as int);
        lemma_distribute(c1.c1 as int, x.c0.c1 as int, x.c1.c1 as int);
        lemma_distribute(c1.c0 as int, x.c0.c1 as int, x.c1.c1 as int);
        lemma_distribute(c1.c1 as int, x.c0.c0 as int, x.c1.c0 as int);
    }
    assert(p.c2 == q.c2) by {
        lemma_normal_forms();
    }
}

/// One is neutral on the left in the sextic extension.
pub proof fn lemma_fq6_one_left(a: Fq6Value)
    requires
        fq6_canonical(a),
    ensures
        fq6_mul(fq6_one(), a) == a,
{
    lemma_fq2_reduce(a.c0);
    lemma_fq2_reduce(a.c1);
    lemma_fq2_reduce(a.c2);
    lemma_reduce_small(0);
    lemma_reduce_small(1);
    lemma_normal_forms();
}

/// The product with zero is zero in the sextic extension.
pub proof fn lemma_fq6_zero_left(a: Fq6Value)
    requires
        fq6_canonical(a),
    ensures
        fq6_mul(fq6_zero(), a) == fq6_zero(),
{
    lemma_fq2_reduce(a.c0);
    lemma_fq2_reduce(a.c1);
    lemma_fq2_reduce(a.c2);
    lemma_reduce_small(0);
    lemma_normal_forms();
}

/// One is neutral on the left in the duodecimal extension.
pub proof fn lemma_fq12_one_left(a: Fq12Value)
    requires
        fq12_canonical(a),
    ensures
        fq12_mul(fq12_one(), a) == a,
{
    lemma_fq6_one_left(a.c0);
    lemma_fq6_one_left(a.c1);
    lemma_fq6_zero_left(a.c0);
    lemma_fq6_zero_left(a.c1);
    lemma_fq2_reduce(a.c0.c0);
    lemma_fq2_reduce(a.c0.c1);
    lemma_fq2_reduce(a.c0.c2);
    lemma_fq2_reduce(a.c1.c0);
    lemma_fq2_reduce(a.c1.c1);
    lemma_fq2_reduce(a.c1.c2);
    lemma_reduce_small(0);
    lemma_normal_forms();
}

} // verus!
