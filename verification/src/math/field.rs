//! The base field of BLS12-381 as arithmetic on canonical residues.
//!
//! A field element is modelled by its unique representative in
//! `[0, modulus())`. The four ring operations are kept opaque: proofs about
//! them go through `lemma_normal_forms`, which rewrites every nested
//! operation into a single reduction of an integer polynomial, so that what
//! is left for the solver is integer arithmetic.

use vstd::arithmetic::div_mod::{
    lemma_add_mod_noop, lemma_mod_bound, lemma_mul_mod_noop, lemma_small_mod, lemma_sub_mod_noop,
};
use vstd::prelude::*;

verus! {

/// The 381-bit prime over which the curve is defined.
pub open spec fn modulus() -> nat {
    0x1a0111ea397fe69a4b1ba7b6434bacd764774b84f38512bf6730d2a0f6b0f6241eabfffeb153ffffb9feffffffffaaabnat
}

/// The canonical representative of the residue class of `x`.
#[verifier::opaque]
pub open spec fn reduce(x: int) -> nat {
    (x % (modulus() as int)) as nat
}

#[verifier::opaque]
pub open spec fn fq_add(a: nat, b: nat) -> nat {
    ((a as int + b as int) % (modulus() as int)) as nat
}

#[verifier::opaque]
pub open spec fn fq_sub(a: nat, b: nat) -> nat {
    ((a - b) % (modulus() as int)) as nat
}

#[verifier::opaque]
pub open spec fn fq_neg(a: nat) -> nat {
    ((0 - a) % (modulus() as int)) as nat
}

#[verifier::opaque]
pub open spec fn fq_mul(a: nat, b: nat) -> nat {
    ((a as int * b as int) % (modulus() as int)) as nat
}

/// `r` is the canonical multiplicative inverse of `a`.
pub open spec fn fq_is_inverse(a: nat, r: nat) -> bool {
    r < modulus() && fq_mul(a, r) == 1
}

/// The multiplicative inverse of `a`; meaningful when one exists, that is
/// when `a` is not a multiple of the modulus.
pub open spec fn fq_inv(a: nat) -> nat {
    choose|r: nat| fq_is_inverse(a, r)
}

/// Every reduction is canonical.
pub proof fn lemma_reduce_bound(x: int)
    ensures
        reduce(x) < modulus(),
{
    reveal(reduce);
    lemma_mod_bound(x, modulus() as int);
}

/// A canonical value is its own reduction.
pub proof fn lemma_reduce_small(a: nat)
    requires
        a < modulus(),
    ensures
        reduce(a as int) == a,
{
    reveal(reduce);
    lemma_small_mod(a, modulus());
}

/// Each operation is one reduction of the integer operation.
pub proof fn lemma_ops_reduce()
    ensures
        forall|a: nat, b: nat| #[trigger] fq_add(a, b) == reduce(a as int + b as int),
        forall|a: nat, b: nat| #[trigger] fq_sub(a, b) == reduce(a as int - b as int),
        forall|a: nat, b: nat| #[trigger] fq_mul(a, b) == reduce(a as int * b as int),
        forall|a: nat| #[trigger] fq_neg(a) == reduce(-(a as int)),
{
    reveal(reduce);
    reveal(fq_add);
    reveal(fq_sub);
    reveal(fq_mul);
    reveal(fq_neg);
}

/// A product is the reduction of the integer product.
pub proof fn lemma_products_reduce()
    ensures
        forall|a: nat, b: nat| #[trigger] fq_mul(a, b) == reduce(a as int * b as int),
{
    reveal(reduce);
    reveal(fq_mul);
}

/// The results of the four operations are canonical.
pub proof fn lemma_ops_canonical()
    ensures
        forall|a: nat, b: nat| #[trigger] fq_add(a, b) < modulus(),
        forall|a: nat, b: nat| #[trigger] fq_sub(a, b) < modulus(),
        forall|a: nat, b: nat| #[trigger] fq_mul(a, b) < modulus(),
        forall|a: nat| #[trigger] fq_neg(a) < modulus(),
{
    lemma_ops_reduce();
    assert forall|a: nat, b: nat| #[trigger] fq_add(a, b) < modulus() by {
        lemma_reduce_bound(a as int + b as int);
    }
    assert forall|a: nat, b: nat| #[trigger] fq_sub(a, b) < modulus() by {
        lemma_reduce_bound(a as int - b as int);
    }
    assert forall|a: nat, b: nat| #[trigger] fq_mul(a, b) < modulus() by {
        lemma_reduce_bound(a as int * b as int);
    }
    assert forall|a: nat| #[trigger] fq_neg(a) < modulus() by {
        lemma_reduce_bound(-(a as int));
    }
}

/// An operation on reductions is the reduction of the integer operation.
///
/// With the operands of an expression written as reductions, these four
/// facts turn the whole expression, bottom up, into the reduction of one
/// integer polynomial.
pub proof fn lemma_normal_forms()
    ensures
        forall|x: int, y: int| #[trigger] fq_add(reduce(x), reduce(y)) == reduce(x + y),
        forall|x: int, y: int| #[trigger] fq_sub(reduce(x), reduce(y)) == reduce(x - y),
        forall|x: int, y: int| #[trigger] fq_mul(reduce(x), reduce(y)) == reduce(x * y),
        forall|x: int| #[trigger] fq_neg(reduce(x)) == reduce(-x),
{
    reveal(reduce);
    reveal(fq_add);
    reveal(fq_sub);
    reveal(fq_mul);
    reveal(fq_neg);
    let p = modulus() as int;
    assert forall|x: int, y: int| #[trigger] fq_add(reduce(x), reduce(y)) == reduce(x + y) by {
        lemma_add_mod_noop(x, y, p);
    }
    assert forall|x: int, y: int| #[trigger] fq_sub(reduce(x), reduce(y)) == reduce(x - y) by {
        lemma_sub_mod_noop(x, y, p);
    }
    assert forall|x: int, y: int| #[trigger] fq_mul(reduce(x), reduce(y)) == reduce(x * y) by {
        lemma_mul_mod_noop(x, y, p);
    }
    assert forall|x: int| #[trigger] fq_neg(reduce(x)) == reduce(-x) by {
        lemma_sub_mod_noop(0, x, p);
        lemma_small_mod(0, modulus());
    }
}

/// The product of two reductions is the reduction of the product.
pub proof fn lemma_mul_reduce(x: int, y: int)
    ensures
        fq_mul(reduce(x), reduce(y)) == reduce(x * y),
{
    reveal(reduce);
    reveal(fq_mul);
    lemma_mul_mod_noop(x, y, modulus() as int);
}

/// A residue has at most one canonical inverse.
pub proof fn lemma_inverse_unique(a: nat, r: nat, s: nat)
    requires
        a < modulus(),
        fq_is_inverse(a, r),
        fq_is_inverse(a, s),
    ensures
        r == s,
{
    let (ai, ri, si) = (a as int, r as int, s as int);
    lemma_reduce_small(a);
    lemma_reduce_small(r);
    lemma_reduce_small(s);
    lemma_reduce_small(1);
    // r = r (a s) = (a r) s = s
    lemma_mul_reduce(ai, si);
    lemma_mul_reduce(ai, ri);
    lemma_mul_reduce(ri, ai * si);
    lemma_mul_reduce(ai * ri, si);
    lemma_mul_reduce(ri, 1);
    lemma_mul_reduce(1, si);
    assert(ri * (ai * si) == (ai * ri) * si) by (nonlinear_arith);
    assert(ri * 1 == ri && 1 * si == si);
}

/// Whenever `a` has an inverse, `fq_inv(a)` is that inverse.
pub proof fn lemma_inverse_is_fq_inv(a: nat, r: nat)
    requires
        a < modulus(),
        fq_is_inverse(a, r),
    ensures
        fq_inv(a) == r,
{
    lemma_inverse_unique(a, r, fq_inv(a));
}

} // verus!
