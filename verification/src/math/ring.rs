//! The laws of multiplication in the tower that the regrouping of a product
//! rests on: it is associative and commutative, and one is neutral.
//!
//! The laws of the sextic extension are proved on the coefficients. Every
//! side is brought into the form of one reduction of a sum of products of
//! coefficients, by `lemma_sums_of_products`, and the two sums are compared
//! as integers. The laws of the duodecimal extension follow from those of
//! the sextic one.

use crate::math::field::{
    fq_add, fq_mul, fq_neg, fq_sub, lemma_normal_forms, lemma_ops_canonical, lemma_reduce_small,
    reduce,
};
use crate::math::formulas::lemma_fq6_one_left;
use crate::math::tower::{
    fq12_canonical, fq12_mul, fq2_add, fq2_canonical, fq2_mul, fq2_mul_by_nonresidue, fq6_add,
    fq6_canonical, fq6_inv, fq6_is_inverse, fq6_mul, fq6_mul_by_nonresidue, fq6_one,
    Fq12Value, Fq2Value, Fq6Value,
};
use vstd::prelude::*;

verus! {

/// The sum of two integers, as a term that the solver does not look into.
pub closed spec fn sum(x: int, y: int) -> int {
    x + y
}

/// The difference of two integers, as a term.
pub closed spec fn diff(x: int, y: int) -> int {
    x - y
}

/// The product of two integers, as a term.
pub closed spec fn prod(x: int, y: int) -> int {
    x * y
}

/// The opposite of an integer, as a term.
pub closed spec fn opp(x: int) -> int {
    -x
}

/// The facts by which an expression over canonical coefficients becomes
/// the reduction of a sum of products of coefficients: an operation on
/// reductions is the reduction of the operation on integers, a product
/// goes into a sum or a difference, and a product of three coefficients
/// does not depend on the bracketing.
proof fn lemma_sums_of_products()
    ensures
        forall|x: int, y: int| #[trigger] fq_add(reduce(x), reduce(y)) == reduce(sum(x, y)),
        forall|x: int, y: int| #[trigger] fq_sub(reduce(x), reduce(y)) == reduce(diff(x, y)),
        forall|x: int, y: int| #[trigger] fq_mul(reduce(x), reduce(y)) == reduce(prod(x, y)),
        forall|x: int| #[trigger] fq_neg(reduce(x)) == reduce(opp(x)),
        forall|x: int, y: int| #[trigger] sum(x, y) == x + y,
        forall|x: int, y: int| #[trigger] diff(x, y) == x - y,
        forall|x: int| #[trigger] opp(x) == -x,
        forall|x: int, y: int, z: int| #[trigger]
            prod(sum(x, y), z) == sum(prod(x, z), prod(y, z)),
        forall|x: int, y: int, z: int| #[trigger]
            prod(z, sum(x, y)) == sum(prod(z, x), prod(z, y)),
        forall|x: int, y: int, z: int| #[trigger]
            prod(diff(x, y), z) == diff(prod(x, z), prod(y, z)),
        forall|x: int, y: int, z: int| #[trigger]
            prod(z, diff(x, y)) == diff(prod(z, x), prod(z, y)),
        forall|x: int, z: int| #[trigger] prod(opp(x), z) == opp(prod(x, z)),
        forall|x: int, z: int| #[trigger] prod(z, opp(x)) == opp(prod(z, x)),
        forall|x: int, y: int, z: int| #[trigger] prod(prod(x, y), z) == x * y * z,
        forall|x: int, y: int, z: int| #[trigger] prod(x, prod(y, z)) == x * y * z,
{
    lemma_normal_forms();
    assert forall|x: int, y: int, z: int| #[trigger]
        prod(sum(x, y), z) == sum(prod(x, z), prod(y, z)) by {
        assert((x + y) * z == x * z + y * z) by (nonlinear_arith);
    }
    assert forall|x: int, y: int, z: int| #[trigger]
        prod(z, sum(x, y)) == sum(prod(z, x), prod(z, y)) by {
        assert(z * (x + y) == z * x + z * y) by (nonlinear_arith);
    }
    assert forall|x: int, y: int, z: int| #[trigger]
        prod(diff(x, y), z) == diff(prod(x, z), prod(y, z)) by {
        assert((x - y) * z == x * z - y * z) by (nonlinear_arith);
    }
    assert forall|x: int, y: int, z: int| #[trigger]
        prod(z, diff(x, y)) == diff(prod(z, x), prod(z, y)) by {
        assert(z * (x - y) == z * x - z * y) by (nonlinear_arith);
    }
    assert forall|x: int, z: int| #[trigger] prod(opp(x), z) == opp(prod(x, z)) by {
        assert((-x) * z == -(x * z)) by (nonlinear_arith);
    }
    assert forall|x: int, z: int| #[trigger] prod(z, opp(x)) == opp(prod(z, x)) by {
        assert(z * (-x) == -(z * x)) by (nonlinear_arith);
    }
    assert forall|x: int, y: int, z: int| #[trigger] prod(prod(x, y), z) == x * y * z by {
        assert((x * y) * z == x * y * z) by (nonlinear_arith);
    }
    assert forall|x: int, y: int, z: int| #[trigger] prod(x, prod(y, z)) == x * y * z by {
        assert(x * (y * z) == x * y * z) by (nonlinear_arith);
    }
}

/// Sums, products and products with `v` of canonical elements are
/// canonical.
pub proof fn lemma_fq6_results_canonical(a: Fq6Value, b: Fq6Value)
    requires
        fq6_canonical(a),
        fq6_canonical(b),
    ensures
        fq6_canonical(fq6_add(a, b)),
        fq6_canonical(fq6_mul(a, b)),
        fq6_canonical(fq6_mul_by_nonresidue(a)),
{
    lemma_ops_canonical();
}

/// The product of any two elements of the duodecimal extension is
/// canonical.
pub proof fn lemma_fq12_mul_canonical(a: Fq12Value, b: Fq12Value)
    ensures
        fq12_canonical(fq12_mul(a, b)),
{
    lemma_ops_canonical();
}

/// The coefficients of a canonical element are their own reductions.
proof fn lemma_fq2_leaves(a: Fq2Value)
    requires
        fq2_canonical(a),
    ensures
        reduce(a.c0 as int) == a.c0,
        reduce(a.c1 as int) == a.c1,
{
    lemma_reduce_small(a.c0);
    lemma_reduce_small(a.c1);
}

/// The product of the quadratic extension is associative.
pub proof fn lemma_fq2_mul_associative(a: Fq2Value, b: Fq2Value, c: Fq2Value)
    requires
        fq2_canonical(a),
        fq2_canonical(b),
        fq2_canonical(c),
    ensures
        fq2_mul(fq2_mul(a, b), c) == fq2_mul(a, fq2_mul(b, c)),
{
    lemma_fq2_leaves(a);
    lemma_fq2_leaves(b);
    lemma_fq2_leaves(c);
    lemma_sums_of_products();
}

/// The product of the quadratic extension is commutative.
pub proof fn lemma_fq2_mul_commutative(a: Fq2Value, b: Fq2Value)
    requires
        fq2_canonical(a),
        fq2_canonical(b),
    ensures
        fq2_mul(a, b) == fq2_mul(b, a),
{
    lemma_fq2_leaves(a);
    lemma_fq2_leaves(b);
    lemma_normal_forms();
    assert(a.c0 * b.c0 == b.c0 * a.c0) by (nonlinear_arith);
    assert(a.c1 * b.c1 == b.c1 * a.c1) by (nonlinear_arith);
    assert(a.c0 * b.c1 == b.c1 * a.c0) by (nonlinear_arith);
    assert(a.c1 * b.c0 == b.c0 * a.c1) by (nonlinear_arith);
}

/// The product of the quadratic extension goes into a sum.
pub proof fn lemma_fq2_mul_distributes(a: Fq2Value, b: Fq2Value, c: Fq2Value)
    requires
        fq2_canonical(a),
        fq2_canonical(b),
        fq2_canonical(c),
    ensures
        fq2_mul(fq2_add(a, b), c) == fq2_add(fq2_mul(a, c), fq2_mul(b, c)),
        fq2_mul(c, fq2_add(a, b)) == fq2_add(fq2_mul(c, a), fq2_mul(c, b)),
{
    lemma_fq2_leaves(a);
    lemma_fq2_leaves(b);
    lemma_fq2_leaves(c);
    lemma_sums_of_products();
}

/// The product with `1 + u` can be taken before or after a product.
pub proof fn lemma_fq2_nonresidue_mul(a: Fq2Value, b: Fq2Value)
    requires
        fq2_canonical(a),
        fq2_canonical(b),
    ensures
        fq2_mul(fq2_mul_by_nonresidue(a), b) == fq2_mul_by_nonresidue(fq2_mul(a, b)),
        fq2_mul(b, fq2_mul_by_nonresidue(a)) == fq2_mul_by_nonresidue(fq2_mul(b, a)),
{
    lemma_fq2_leaves(a);
    lemma_fq2_leaves(b);
    lemma_sums_of_products();
}

/// The rules by which a product of sums in the quadratic extension becomes
/// a sum of products of three factors, bracketed to the left.
proof fn lemma_fq2_rules()
    ensures
        forall|x: Fq2Value, y: Fq2Value| fq2_canonical(#[trigger] fq2_mul(x, y)),
        forall|x: Fq2Value, y: Fq2Value| fq2_canonical(#[trigger] fq2_add(x, y)),
        forall|x: Fq2Value| fq2_canonical(#[trigger] fq2_mul_by_nonresidue(x)),
        forall|x: Fq2Value, y: Fq2Value, z: Fq2Value|
            fq2_canonical(x) && fq2_canonical(y) && fq2_canonical(z) ==> #[trigger] fq2_mul(
                fq2_add(x, y),
                z,
            ) == fq2_add(fq2_mul(x, z), fq2_mul(y, z)),
        forall|x: Fq2Value, y: Fq2Value, z: Fq2Value|
            fq2_canonical(x) && fq2_canonical(y) && fq2_canonical(z) ==> #[trigger] fq2_mul(
                z,
                fq2_add(x, y),
            ) == fq2_add(fq2_mul(z, x), fq2_mul(z, y)),
        forall|x: Fq2Value, z: Fq2Value|
            fq2_canonical(x) && fq2_canonical(z) ==> #[trigger] fq2_mul(
                fq2_mul_by_nonresidue(x),
                z,
            ) == fq2_mul_by_nonresidue(fq2_mul(x, z)),
        forall|x: Fq2Value, z: Fq2Value|
            fq2_canonical(x) && fq2_canonical(z) ==> #[trigger] fq2_mul(
                z,
                fq2_mul_by_nonresidue(x),
            ) == fq2_mul_by_nonresidue(fq2_mul(z, x)),
        forall|x: Fq2Value, y: Fq2Value, z: Fq2Value|
            fq2_canonical(x) && fq2_canonical(y) && fq2_canonical(z) ==> #[trigger] fq2_mul(
                x,
                fq2_mul(y, z),
            ) == fq2_mul(fq2_mul(x, y), z),
{
    lemma_ops_canonical();
    assert forall|x: Fq2Value, y: Fq2Value, z: Fq2Value|
        fq2_canonical(x) && fq2_canonical(y) && fq2_canonical(z) implies #[trigger] fq2_mul(
        fq2_add(x, y),
        z,
    ) == fq2_add(fq2_mul(x, z), fq2_mul(y, z)) by {
        lemma_fq2_mul_distributes(x, y, z);
    }
    assert forall|x: Fq2Value, y: Fq2Value, z: Fq2Value|
        fq2_canonical(x) && fq2_canonical(y) && fq2_canonical(z) implies #[trigger] fq2_mul(
        z,
        fq2_add(x, y),
    ) == fq2_add(fq2_mul(z, x), fq2_mul(z, y)) by {
        lemma_fq2_mul_distributes(x, y, z);
    }
    assert forall|x: Fq2Value, z: Fq2Value|
        fq2_canonical(x) && fq2_canonical(z) implies #[trigger] fq2_mul(
        fq2_mul_by_nonresidue(x),
        z,
    ) == fq2_mul_by_nonresidue(fq2_mul(x, z)) by {
        lemma_fq2_nonresidue_mul(x, z);
    }
    assert forall|x: Fq2Value, z: Fq2Value|
        fq2_canonical(x) && fq2_canonical(z) implies #[trigger] fq2_mul(
        z,
        fq2_mul_by_nonresidue(x),
    ) == fq2_mul_by_nonresidue(fq2_mul(z, x)) by {
        lemma_fq2_nonresidue_mul(x, z);
    }
    assert forall|x: Fq2Value, y: Fq2Value, z: Fq2Value|
        fq2_canonical(x) && fq2_canonical(y) && fq2_canonical(z) implies #[trigger] fq2_mul(
        x,
        fq2_mul(y, z),
    ) == fq2_mul(fq2_mul(x, y), z) by {
        lemma_fq2_mul_associative(x, y, z);
    }
}

/// The product of three coefficients, bracketed to the left.
spec fn triple(x: Fq2Value, y: Fq2Value, z: Fq2Value) -> Fq2Value {
    fq2_mul(fq2_mul(x, y), z)
}

/// The sum of nine products, grouped as the product `(a b) c` gives them
/// for its coefficient number 0, and as the product `a (b c)` does.
proof fn lemma_regroup_c0(
    t000: Fq2Value,
    t120: Fq2Value,
    t210: Fq2Value,
    t012: Fq2Value,
    t102: Fq2Value,
    t222: Fq2Value,
    t021: Fq2Value,
    t111: Fq2Value,
    t201: Fq2Value,
)
    requires
        fq2_canonical(t000),
        fq2_canonical(t120),
        fq2_canonical(t210),
        fq2_canonical(t012),
        fq2_canonical(t102),
        fq2_canonical(t222),
        fq2_canonical(t021),
        fq2_canonical(t111),
        fq2_canonical(t201),
    ensures
        fq2_add(fq2_add(t000, fq2_mul_by_nonresidue(fq2_add(t120, t210))), fq2_mul_by_nonresidue(fq2_add(fq2_add(fq2_add(t012, t102), fq2_mul_by_nonresidue(t222)), fq2_add(fq2_add(t021, t111), t201)))) == fq2_add(fq2_add(t000, fq2_mul_by_nonresidue(fq2_add(t012, t021))), fq2_mul_by_nonresidue(fq2_add(fq2_add(fq2_add(t102, t111), t120), fq2_add(fq2_add(t201, t210), fq2_mul_by_nonresidue(t222))))),
{
    lemma_fq2_leaves(t000);
    lemma_fq2_leaves(t120);
    lemma_fq2_leaves(t210);
    lemma_fq2_leaves(t012);
    lemma_fq2_leaves(t102);
    lemma_fq2_leaves(t222);
    lemma_fq2_leaves(t021);
    lemma_fq2_leaves(t111);
    lemma_fq2_leaves(t201);
    lemma_normal_forms();
}

proof fn lemma_fq6_associative_c0_left(a: Fq6Value, b: Fq6Value, c: Fq6Value)
    requires
        fq6_canonical(a),
        fq6_canonical(b),
        fq6_canonical(c),
    ensures
        fq6_mul(fq6_mul(a, b), c).c0 == fq2_add(fq2_add(triple(a.c0, b.c0, c.c0), fq2_mul_by_nonresidue(fq2_add(triple(a.c1, b.c2, c.c0), triple(a.c2, b.c1, c.c0)))), fq2_mul_by_nonresidue(fq2_add(fq2_add(fq2_add(triple(a.c0, b.c1, c.c2), triple(a.c1, b.c0, c.c2)), fq2_mul_by_nonresidue(triple(a.c2, b.c2, c.c2))), fq2_add(fq2_add(triple(a.c0, b.c2, c.c1), triple(a.c1, b.c1, c.c1)), triple(a.c2, b.c0, c.c1))))),
{
    lemma_fq2_rules();
}

proof fn lemma_fq6_associative_c0_right(a: Fq6Value, b: Fq6Value, c: Fq6Value)
    requires
        fq6_canonical(a),
        fq6_canonical(b),
        fq6_canonical(c),
    ensures
        fq6_mul(a, fq6_mul(b, c)).c0 == fq2_add(fq2_add(triple(a.c0, b.c0, c.c0), fq2_mul_by_nonresidue(fq2_add(triple(a.c0, b.c1, c.c2), triple(a.c0, b.c2, c.c1)))), fq2_mul_by_nonresidue(fq2_add(fq2_add(fq2_add(triple(a.c1, b.c0, c.c2), triple(a.c1, b.c1, c.c1)), triple(a.c1, b.c2, c.c0)), fq2_add(fq2_add(triple(a.c2, b.c0, c.c1), triple(a.c2, b.c1, c.c0)), fq2_mul_by_nonresidue(triple(a.c2, b.c2, c.c2)))))),
{
    lemma_fq2_rules();
}

proof fn lemma_fq6_associative_c0(a: Fq6Value, b: Fq6Value, c: Fq6Value)
    requires
        fq6_canonical(a),
        fq6_canonical(b),
        fq6_canonical(c),
    ensures
        fq6_mul(fq6_mul(a, b), c).c0 == fq6_mul(a, fq6_mul(b, c)).c0,
{
    lemma_fq6_associative_c0_left(a, b, c);
    lemma_fq6_associative_c0_right(a, b, c);
    lemma_ops_canonical();
    lemma_regroup_c0(
        triple(a.c0, b.c0, c.c0),
        triple(a.c1, b.c2, c.c0),
        triple(a.c2, b.c1, c.c0),
        triple(a.c0, b.c1, c.c2),
        triple(a.c1, b.c0, c.c2),
        triple(a.c2, b.c2, c.c2),
        triple(a.c0, b.c2, c.c1),
        triple(a.c1, b.c1, c.c1),
        triple(a.c2, b.c0, c.c1),
    );
}

/// The sum of nine products, grouped as the product `(a b) c` gives them
/// for its coefficient number 1, and as the product `a (b c)` does.
proof fn lemma_regroup_c1(
    t001: Fq2Value,
    t121: Fq2Value,
    t211: Fq2Value,
    t010: Fq2Value,
    t100: Fq2Value,
    t220: Fq2Value,
    t022: Fq2Value,
    t112: Fq2Value,
    t202: Fq2Value,
)
    requires
        fq2_canonical(t001),
        fq2_canonical(t121),
        fq2_canonical(t211),
        fq2_canonical(t010),
        fq2_canonical(t100),
        fq2_canonical(t220),
        fq2_canonical(t022),
        fq2_canonical(t112),
        fq2_canonical(t202),
    ensures
        fq2_add(fq2_add(fq2_add(t001, fq2_mul_by_nonresidue(fq2_add(t121, t211))), fq2_add(fq2_add(t010, t100), fq2_mul_by_nonresidue(t220))), fq2_mul_by_nonresidue(fq2_add(fq2_add(t022, t112), t202))) == fq2_add(fq2_add(fq2_add(fq2_add(t001, t010), fq2_mul_by_nonresidue(t022)), fq2_add(t100, fq2_mul_by_nonresidue(fq2_add(t112, t121)))), fq2_mul_by_nonresidue(fq2_add(fq2_add(t202, t211), t220))),
{
    lemma_fq2_leaves(t001);
    lemma_fq2_leaves(t121);
    lemma_fq2_leaves(t211);
    lemma_fq2_leaves(t010);
    lemma_fq2_leaves(t100);
    lemma_fq2_leaves(t220);
    lemma_fq2_leaves(t022);
    lemma_fq2_leaves(t112);
    lemma_fq2_leaves(t202);
    lemma_normal_forms();
}

proof fn lemma_fq6_associative_c1_left(a: Fq6Value, b: Fq6Value, c: Fq6Value)
    requires
        fq6_canonical(a),
        fq6_canonical(b),
        fq6_canonical(c),
    ensures
        fq6_mul(fq6_mul(a, b), c).c1 == fq2_add(fq2_add(fq2_add(triple(a.c0, b.c0, c.c1), fq2_mul_by_nonresidue(fq2_add(triple(a.c1, b.c2, c.c1), triple(a.c2, b.c1, c.c1)))), fq2_add(fq2_add(triple(a.c0, b.c1, c.c0), triple(a.c1, b.c0, c.c0)), fq2_mul_by_nonresidue(triple(a.c2, b.c2, c.c0)))), fq2_mul_by_nonresidue(fq2_add(fq2_add(triple(a.c0, b.c2, c.c2), triple(a.c1, b.c1, c.c2)), triple(a.c2, b.c0, c.c2)))),
{
    lemma_fq2_rules();
}

proof fn lemma_fq6_associative_c1_right(a: Fq6Value, b: Fq6Value, c: Fq6Value)
    requires
        fq6_canonical(a),
        fq6_canonical(b),
        fq6_canonical(c),
    ensures
        fq6_mul(a, fq6_mul(b, c)).c1 == fq2_add(fq2_add(fq2_add(fq2_add(triple(a.c0, b.c0, c.c1), triple(a.c0, b.c1, c.c0)), fq2_mul_by_nonresidue(triple(a.c0, b.c2, c.c2))), fq2_add(triple(a.c1, b.c0, c.c0), fq2_mul_by_nonresidue(fq2_add(triple(a.c1, b.c1, c.c2), triple(a.c1, b.c2, c.c1))))), fq2_mul_by_nonresidue(fq2_add(fq2_add(triple(a.c2, b.c0, c.c2), triple(a.c2, b.c1, c.c1)), triple(a.c2, b.c2, c.c0)))),
{
    lemma_fq2_rules();
}

proof fn lemma_fq6_associative_c1(a: Fq6Value, b: Fq6Value, c: Fq6Value)
    requires
        fq6_canonical(a),
        fq6_canonical(b),
        fq6_canonical(c),
    ensures
        fq6_mul(fq6_mul(a, b), c).c1 == fq6_mul(a, fq6_mul(b, c)).c1,
{
    lemma_fq6_associative_c1_left(a, b, c);
    lemma_fq6_associative_c1_right(a, b, c);
    lemma_ops_canonical();
    lemma_regroup_c1(
        triple(a.c0, b.c0, c.c1),
        triple(a.c1, b.c2, c.c1),
        triple(a.c2, b.c1, c.c1),
        triple(a.c0, b.c1, c.c0),
        triple(a.c1, b.c0, c.c0),
        triple(a.c2, b.c2, c.c0),
        triple(a.c0, b.c2, c.c2),
        triple(a.c1, b.c1, c.c2),
        triple(a.c2, b.c0, c.c2),
    );
}

/// The sum of nine products, grouped as the product `(a b) c` gives them
/// for its coefficient number 2, and as the product `a (b c)` does.
proof fn lemma_regroup_c2(
    t002: Fq2Value,
    t122: Fq2Value,
    t212: Fq2Value,
    t011: Fq2Value,
    t101: Fq2Value,
    t221: Fq2Value,
    t020: Fq2Value,
    t110: Fq2Value,
    t200: Fq2Value,
)
    requires
        fq2_canonical(t002),
        fq2_canonical(t122),
        fq2_canonical(t212),
        fq2_canonical(t011),
        fq2_canonical(t101),
        fq2_canonical(t221),
        fq2_canonical(t020),
        fq2_canonical(t110),
        fq2_canonical(t200),
    ensures
        fq2_add(fq2_add(fq2_add(t002, fq2_mul_by_nonresidue(fq2_add(t122, t212))), fq2_add(fq2_add(t011, t101), fq2_mul_by_nonresidue(t221))), fq2_add(fq2_add(t020, t110), t200)) == fq2_add(fq2_add(fq2_add(fq2_add(t002, t011), t020), fq2_add(fq2_add(t101, t110), fq2_mul_by_nonresidue(t122))), fq2_add(t200, fq2_mul_by_nonresidue(fq2_add(t212, t221)))),
{
    lemma_fq2_leaves(t002);
    lemma_fq2_leaves(t122);
    lemma_fq2_leaves(t212);
    lemma_fq2_leaves(t011);
    lemma_fq2_leaves(t101);
    lemma_fq2_leaves(t221);
    lemma_fq2_leaves(t020);
    lemma_fq2_leaves(t110);
    lemma_fq2_leaves(t200);
    lemma_normal_forms();
}

proof fn lemma_fq6_associative_c2_left(a: Fq6Value, b: Fq6Value, c: Fq6Value)
    requires
        fq6_canonical(a),
        fq6_canonical(b),
        fq6_canonical(c),
    ensures
        fq6_mul(fq6_mul(a, b), c).c2 == fq2_add(fq2_add(fq2_add(triple(a.c0, b.c0, c.c2), fq2_mul_by_nonresidue(fq2_add(triple(a.c1, b.c2, c.c2), triple(a.c2, b.c1, c.c2)))), fq2_add(fq2_add(triple(a.c0, b.c1, c.c1), triple(a.c1, b.c0, c.c1)), fq2_mul_by_nonresidue(triple(a.c2, b.c2, c.c1)))), fq2_add(fq2_add(triple(a.c0, b.c2, c.c0), triple(a.c1, b.c1, c.c0)), triple(a.c2, b.c0, c.c0))),
{
    lemma_fq2_rules();
}

proof fn lemma_fq6_associative_c2_right(a: Fq6Value, b: Fq6Value, c: Fq6Value)
    requires
        fq6_canonical(a),
        fq6_canonical(b),
        fq6_canonical(c),
    ensures
        fq6_mul(a, fq6_mul(b, c)).c2 == fq2_add(fq2_add(fq2_add(fq2_add(triple(a.c0, b.c0, c.c2), triple(a.c0, b.c1, c.c1)), triple(a.c0, b.c2, c.c0)), fq2_add(fq2_add(triple(a.c1, b.c0, c.c1), triple(a.c1, b.c1, c.c0)), fq2_mul_by_nonresidue(triple(a.c1, b.c2, c.c2)))), fq2_add(triple(a.c2, b.c0, c.c0), fq2_mul_by_nonresidue(fq2_add(triple(a.c2, b.c1, c.c2), triple(a.c2, b.c2, c.c1))))),
{
    lemma_fq2_rules();
}

proof fn lemma_fq6_associative_c2(a: Fq6Value, b: Fq6Value, c: Fq6Value)
    requires
        fq6_canonical(a),
        fq6_canonical(b),
        fq6_canonical(c),
    ensures
        fq6_mul(fq6_mul(a, b), c).c2 == fq6_mul(a, fq6_mul(b, c)).c2,
{
    lemma_fq6_associative_c2_left(a, b, c);
    lemma_fq6_associative_c2_right(a, b, c);
    lemma_ops_canonical();
    lemma_regroup_c2(
        triple(a.c0, b.c0, c.c2),
        triple(a.c1, b.c2, c.c2),
        triple(a.c2, b.c1, c.c2),
        triple(a.c0, b.c1, c.c1),
        triple(a.c1, b.c0, c.c1),
        triple(a.c2, b.c2, c.c1),
        triple(a.c0, b.c2, c.c0),
        triple(a.c1, b.c1, c.c0),
        triple(a.c2, b.c0, c.c0),
    );
}

/// The product of the sextic extension is associative.
pub proof fn lemma_fq6_mul_associative(a: Fq6Value, b: Fq6Value, c: Fq6Value)
    requires
        fq6_canonical(a),
        fq6_canonical(b),
        fq6_canonical(c),
    ensures
        fq6_mul(fq6_mul(a, b), c) == fq6_mul(a, fq6_mul(b, c)),
{
    lemma_fq6_associative_c0(a, b, c);
    lemma_fq6_associative_c1(a, b, c);
    lemma_fq6_associative_c2(a, b, c);
}

/// Sums of three canonical elements of the quadratic extension, regrouped.
proof fn lemma_fq2_sums(x: Fq2Value, y: Fq2Value, z: Fq2Value)
    requires
        fq2_canonical(x),
        fq2_canonical(y),
        fq2_canonical(z),
    ensures
        fq2_add(x, y) == fq2_add(y, x),
        fq2_add(fq2_add(x, y), z) == fq2_add(fq2_add(z, y), x),
        fq2_add(fq2_mul_by_nonresidue(x), fq2_mul_by_nonresidue(fq2_add(y, z)))
            == fq2_mul_by_nonresidue(fq2_add(fq2_add(y, z), x)),
        fq2_add(fq2_add(fq2_mul_by_nonresidue(x), y), fq2_mul_by_nonresidue(z)) == fq2_add(
            y,
            fq2_mul_by_nonresidue(fq2_add(z, x)),
        ),
        fq2_add(fq2_add(fq2_mul_by_nonresidue(x), y), z) == fq2_add(
            fq2_add(y, z),
            fq2_mul_by_nonresidue(x),
        ),
{
    lemma_fq2_leaves(x);
    lemma_fq2_leaves(y);
    lemma_fq2_leaves(z);
    lemma_normal_forms();
}

/// Sums of three sums, regrouped into the sum of two sums of three.
proof fn lemma_fq2_sums_of_sums(
    x1: Fq2Value,
    y1: Fq2Value,
    x2: Fq2Value,
    y2: Fq2Value,
    x3: Fq2Value,
    y3: Fq2Value,
)
    requires
        fq2_canonical(x1),
        fq2_canonical(y1),
        fq2_canonical(x2),
        fq2_canonical(y2),
        fq2_canonical(x3),
        fq2_canonical(y3),
    ensures
        fq2_add(
            fq2_add(x1, y1),
            fq2_mul_by_nonresidue(fq2_add(fq2_add(x2, y2), fq2_add(x3, y3))),
        ) == fq2_add(
            fq2_add(x1, fq2_mul_by_nonresidue(fq2_add(x2, x3))),
            fq2_add(y1, fq2_mul_by_nonresidue(fq2_add(y2, y3))),
        ),
        fq2_add(
            fq2_add(fq2_add(x1, y1), fq2_add(x2, y2)),
            fq2_mul_by_nonresidue(fq2_add(x3, y3)),
        ) == fq2_add(
            fq2_add(fq2_add(x1, x2), fq2_mul_by_nonresidue(x3)),
            fq2_add(fq2_add(y1, y2), fq2_mul_by_nonresidue(y3)),
        ),
        fq2_add(fq2_add(fq2_add(x1, y1), fq2_add(x2, y2)), fq2_add(x3, y3)) == fq2_add(
            fq2_add(fq2_add(x1, x2), x3),
            fq2_add(fq2_add(y1, y2), y3),
        ),
{
    lemma_fq2_leaves(x1);
    lemma_fq2_leaves(y1);
    lemma_fq2_leaves(x2);
    lemma_fq2_leaves(y2);
    lemma_fq2_leaves(x3);
    lemma_fq2_leaves(y3);
    lemma_normal_forms();
}

/// The product of the sextic extension is commutative.
pub proof fn lemma_fq6_mul_commutative(a: Fq6Value, b: Fq6Value)
    requires
        fq6_canonical(a),
        fq6_canonical(b),
    ensures
        fq6_mul(a, b) == fq6_mul(b, a),
{
    lemma_fq2_mul_commutative(a.c0, b.c0);
    lemma_fq2_mul_commutative(a.c0, b.c1);
    lemma_fq2_mul_commutative(a.c0, b.c2);
    lemma_fq2_mul_commutative(a.c1, b.c0);
    lemma_fq2_mul_commutative(a.c1, b.c1);
    lemma_fq2_mul_commutative(a.c1, b.c2);
    lemma_fq2_mul_commutative(a.c2, b.c0);
    lemma_fq2_mul_commutative(a.c2, b.c1);
    lemma_fq2_mul_commutative(a.c2, b.c2);
    lemma_ops_canonical();
    lemma_fq2_sums(fq2_mul(a.c1, b.c2), fq2_mul(a.c2, b.c1), fq2_mul(a.c0, b.c0));
    lemma_fq2_sums(fq2_mul(a.c0, b.c1), fq2_mul(a.c1, b.c0), fq2_mul(a.c0, b.c0));
    lemma_fq2_sums(fq2_mul(a.c0, b.c2), fq2_mul(a.c1, b.c1), fq2_mul(a.c2, b.c0));
}

/// The product of the sextic extension goes into a sum.
pub proof fn lemma_fq6_mul_distributes(a: Fq6Value, b: Fq6Value, c: Fq6Value)
    requires
        fq6_canonical(a),
        fq6_canonical(b),
        fq6_canonical(c),
    ensures
        fq6_mul(fq6_add(a, b), c) == fq6_add(fq6_mul(a, c), fq6_mul(b, c)),
        fq6_mul(c, fq6_add(a, b)) == fq6_add(fq6_mul(c, a), fq6_mul(c, b)),
{
    lemma_fq2_mul_distributes(a.c0, b.c0, c.c0);
    lemma_fq2_mul_distributes(a.c0, b.c0, c.c1);
    lemma_fq2_mul_distributes(a.c0, b.c0, c.c2);
    lemma_fq2_mul_distributes(a.c1, b.c1, c.c0);
    lemma_fq2_mul_distributes(a.c1, b.c1, c.c1);
    lemma_fq2_mul_distributes(a.c1, b.c1, c.c2);
    lemma_fq2_mul_distributes(a.c2, b.c2, c.c0);
    lemma_fq2_mul_distributes(a.c2, b.c2, c.c1);
    lemma_fq2_mul_distributes(a.c2, b.c2, c.c2);
    lemma_ops_canonical();
    lemma_fq2_sums_of_sums(
        fq2_mul(a.c0, c.c0),
        fq2_mul(b.c0, c.c0),
        fq2_mul(a.c1, c.c2),
        fq2_mul(b.c1, c.c2),
        fq2_mul(a.c2, c.c1),
        fq2_mul(b.c2, c.c1),
    );
    lemma_fq2_sums_of_sums(
        fq2_mul(a.c0, c.c1),
        fq2_mul(b.c0, c.c1),
        fq2_mul(a.c1, c.c0),
        fq2_mul(b.c1, c.c0),
        fq2_mul(a.c2, c.c2),
        fq2_mul(b.c2, c.c2),
    );
    lemma_fq2_sums_of_sums(
        fq2_mul(a.c0, c.c2),
        fq2_mul(b.c0, c.c2),
        fq2_mul(a.c1, c.c1),
        fq2_mul(b.c1, c.c1),
        fq2_mul(a.c2, c.c0),
        fq2_mul(b.c2, c.c0),
    );
    assert(fq6_mul(fq6_add(a, b), c) == fq6_add(fq6_mul(a, c), fq6_mul(b, c)));
    lemma_fq6_results_canonical(a, b);
    lemma_fq6_mul_commutative(fq6_add(a, b), c);
    lemma_fq6_mul_commutative(a, c);
    lemma_fq6_mul_commutative(b, c);
}

/// The product with `v` can be taken before or after a product.
pub proof fn lemma_fq6_nonresidue_mul(a: Fq6Value, b: Fq6Value)
    requires
        fq6_canonical(a),
        fq6_canonical(b),
    ensures
        fq6_mul(fq6_mul_by_nonresidue(a), b) == fq6_mul_by_nonresidue(fq6_mul(a, b)),
        fq6_mul(b, fq6_mul_by_nonresidue(a)) == fq6_mul_by_nonresidue(fq6_mul(b, a)),
{
    lemma_fq2_nonresidue_mul(a.c2, b.c0);
    lemma_fq2_nonresidue_mul(a.c2, b.c1);
    lemma_fq2_nonresidue_mul(a.c2, b.c2);
    lemma_ops_canonical();
    lemma_fq2_sums(fq2_mul(a.c2, b.c0), fq2_mul(a.c0, b.c2), fq2_mul(a.c1, b.c1));
    lemma_fq2_sums(fq2_mul(a.c2, b.c1), fq2_mul(a.c0, b.c0), fq2_mul(a.c1, b.c2));
    lemma_fq2_sums(fq2_mul(a.c2, b.c2), fq2_mul(a.c0, b.c1), fq2_mul(a.c1, b.c0));
    assert(fq6_mul(fq6_mul_by_nonresidue(a), b) == fq6_mul_by_nonresidue(fq6_mul(a, b)));
    lemma_fq6_mul_commutative(fq6_mul_by_nonresidue(a), b);
    lemma_fq6_mul_commutative(a, b);
}

/// The coefficients of a canonical element are their own reductions.
proof fn lemma_fq6_leaves(a: Fq6Value)
    requires
        fq6_canonical(a),
    ensures
        reduce(a.c0.c0 as int) == a.c0.c0,
        reduce(a.c0.c1 as int) == a.c0.c1,
        reduce(a.c1.c0 as int) == a.c1.c0,
        reduce(a.c1.c1 as int) == a.c1.c1,
        reduce(a.c2.c0 as int) == a.c2.c0,
        reduce(a.c2.c1 as int) == a.c2.c1,
{
    lemma_fq2_leaves(a.c0);
    lemma_fq2_leaves(a.c1);
    lemma_fq2_leaves(a.c2);
}

/// The rules by which a product of sums in the sextic extension becomes a
/// sum of products of three factors, bracketed to the left.
proof fn lemma_fq6_rules()
    ensures
        forall|x: Fq6Value, y: Fq6Value| fq6_canonical(#[trigger] fq6_mul(x, y)),
        forall|x: Fq6Value, y: Fq6Value| fq6_canonical(#[trigger] fq6_add(x, y)),
        forall|x: Fq6Value|
            fq6_canonical(x) ==> fq6_canonical(#[trigger] fq6_mul_by_nonresidue(x)),
        forall|x: Fq6Value, y: Fq6Value, z: Fq6Value|
            fq6_canonical(x) && fq6_canonical(y) && fq6_canonical(z) ==> #[trigger] fq6_mul(
                fq6_add(x, y),
                z,
            ) == fq6_add(fq6_mul(x, z), fq6_mul(y, z)),
        forall|x: Fq6Value, y: Fq6Value, z: Fq6Value|
            fq6_canonical(x) && fq6_canonical(y) && fq6_canonical(z) ==> #[trigger] fq6_mul(
                z,
                fq6_add(x, y),
            ) == fq6_add(fq6_mul(z, x), fq6_mul(z, y)),
        forall|x: Fq6Value, z: Fq6Value|
            fq6_canonical(x) && fq6_canonical(z) ==> #[trigger] fq6_mul(
                fq6_mul_by_nonresidue(x),
                z,
            ) == fq6_mul_by_nonresidue(fq6_mul(x, z)),
        forall|x: Fq6Value, z: Fq6Value|
            fq6_canonical(x) && fq6_canonical(z) ==> #[trigger] fq6_mul(
                z,
                fq6_mul_by_nonresidue(x),
            ) == fq6_mul_by_nonresidue(fq6_mul(z, x)),
        forall|x: Fq6Value, y: Fq6Value, z: Fq6Value|
            fq6_canonical(x) && fq6_canonical(y) && fq6_canonical(z) ==> #[trigger] fq6_mul(
                x,
                fq6_mul(y, z),
            ) == fq6_mul(fq6_mul(x, y), z),
{
    lemma_ops_canonical();
    assert forall|x: Fq6Value, y: Fq6Value, z: Fq6Value|
        fq6_canonical(x) && fq6_canonical(y) && fq6_canonical(z) implies #[trigger] fq6_mul(
        fq6_add(x, y),
        z,
    ) == fq6_add(fq6_mul(x, z), fq6_mul(y, z)) by {
        lemma_fq6_mul_distributes(x, y, z);
    }
    assert forall|x: Fq6Value, y: Fq6Value, z: Fq6Value|
        fq6_canonical(x) && fq6_canonical(y) && fq6_canonical(z) implies #[trigger] fq6_mul(
        z,
        fq6_add(x, y),
    ) == fq6_add(fq6_mul(z, x), fq6_mul(z, y)) by {
        lemma_fq6_mul_distributes(x, y, z);
    }
    assert forall|x: Fq6Value, z: Fq6Value|
        fq6_canonical(x) && fq6_canonical(z) implies #[trigger] fq6_mul(
        fq6_mul_by_nonresidue(x),
        z,
    ) == fq6_mul_by_nonresidue(fq6_mul(x, z)) by {
        lemma_fq6_nonresidue_mul(x, z);
    }
    assert forall|x: Fq6Value, z: Fq6Value|
        fq6_canonical(x) && fq6_canonical(z) implies #[trigger] fq6_mul(
        z,
        fq6_mul_by_nonresidue(x),
    ) == fq6_mul_by_nonresidue(fq6_mul(z, x)) by {
        lemma_fq6_nonresidue_mul(x, z);
    }
    assert forall|x: Fq6Value, y: Fq6Value, z: Fq6Value|
        fq6_canonical(x) && fq6_canonical(y) && fq6_canonical(z) implies #[trigger] fq6_mul(
        x,
        fq6_mul(y, z),
    ) == fq6_mul(fq6_mul(x, y), z) by {
        lemma_fq6_mul_associative(x, y, z);
    }
}

/// The product of three coefficients, bracketed to the left.
spec fn triple6(x: Fq6Value, y: Fq6Value, z: Fq6Value) -> Fq6Value {
    fq6_mul(fq6_mul(x, y), z)
}

/// Four summands, regrouped, where the product with `v` of a sum is the
/// sum of the products.
proof fn lemma_fq6_regroup(x: Fq6Value, y: Fq6Value, z: Fq6Value, u: Fq6Value)
    requires
        fq6_canonical(x),
        fq6_canonical(y),
        fq6_canonical(z),
        fq6_canonical(u),
    ensures
        fq6_add(
            fq6_add(x, fq6_mul_by_nonresidue(y)),
            fq6_mul_by_nonresidue(fq6_add(z, u)),
        ) == fq6_add(
            fq6_add(x, fq6_mul_by_nonresidue(z)),
            fq6_mul_by_nonresidue(fq6_add(u, y)),
        ),
        fq6_add(fq6_add(x, fq6_mul_by_nonresidue(y)), fq6_add(z, u)) == fq6_add(
            fq6_add(x, z),
            fq6_add(u, fq6_mul_by_nonresidue(y)),
        ),
        fq6_add(x, y) == fq6_add(y, x),
{
    lemma_fq6_leaves(x);
    lemma_fq6_leaves(y);
    lemma_fq6_leaves(z);
    lemma_fq6_leaves(u);
    lemma_normal_forms();
}

proof fn lemma_fq12_associative_left(a: Fq12Value, b: Fq12Value, c: Fq12Value)
    requires
        fq12_canonical(a),
        fq12_canonical(b),
        fq12_canonical(c),
    ensures
        fq12_mul(fq12_mul(a, b), c).c0 == fq6_add(
            fq6_add(
                triple6(a.c0, b.c0, c.c0),
                fq6_mul_by_nonresidue(triple6(a.c1, b.c1, c.c0)),
            ),
            fq6_mul_by_nonresidue(
                fq6_add(triple6(a.c0, b.c1, c.c1), triple6(a.c1, b.c0, c.c1)),
            ),
        ),
        fq12_mul(fq12_mul(a, b), c).c1 == fq6_add(
            fq6_add(
                triple6(a.c0, b.c0, c.c1),
                fq6_mul_by_nonresidue(triple6(a.c1, b.c1, c.c1)),
            ),
            fq6_add(triple6(a.c0, b.c1, c.c0), triple6(a.c1, b.c0, c.c0)),
        ),
{
    lemma_fq6_rules();
}

proof fn lemma_fq12_associative_right(a: Fq12Value, b: Fq12Value, c: Fq12Value)
    requires
        fq12_canonical(a),
        fq12_canonical(b),
        fq12_canonical(c),
    ensures
        fq12_mul(a, fq12_mul(b, c)).c0 == fq6_add(
            fq6_add(
                triple6(a.c0, b.c0, c.c0),
                fq6_mul_by_nonresidue(triple6(a.c0, b.c1, c.c1)),
            ),
            fq6_mul_by_nonresidue(
                fq6_add(triple6(a.c1, b.c0, c.c1), triple6(a.c1, b.c1, c.c0)),
            ),
        ),
        fq12_mul(a, fq12_mul(b, c)).c1 == fq6_add(
            fq6_add(triple6(a.c0, b.c0, c.c1), triple6(a.c0, b.c1, c.c0)),
            fq6_add(
                triple6(a.c1, b.c0, c.c0),
                fq6_mul_by_nonresidue(triple6(a.c1, b.c1, c.c1)),
            ),
        ),
{
    lemma_fq6_rules();
}

/// The product of the duodecimal extension is associative.
pub proof fn lemma_fq12_mul_associative(a: Fq12Value, b: Fq12Value, c: Fq12Value)
    requires
        fq12_canonical(a),
        fq12_canonical(b),
        fq12_canonical(c),
    ensures
        fq12_mul(fq12_mul(a, b), c) == fq12_mul(a, fq12_mul(b, c)),
{
    lemma_fq12_associative_left(a, b, c);
    lemma_fq12_associative_right(a, b, c);
    lemma_ops_canonical();
    lemma_fq6_regroup(
        triple6(a.c0, b.c0, c.c0),
        triple6(a.c1, b.c1, c.c0),
        triple6(a.c0, b.c1, c.c1),
        triple6(a.c1, b.c0, c.c1),
    );
    lemma_fq6_regroup(
        triple6(a.c0, b.c0, c.c1),
        triple6(a.c1, b.c1, c.c1),
        triple6(a.c0, b.c1, c.c0),
        triple6(a.c1, b.c0, c.c0),
    );
}

/// The product of the duodecimal extension is commutative.
pub proof fn lemma_fq12_mul_commutative(a: Fq12Value, b: Fq12Value)
    requires
        fq12_canonical(a),
        fq12_canonical(b),
    ensures
        fq12_mul(a, b) == fq12_mul(b, a),
{
    lemma_fq6_mul_commutative(a.c0, b.c0);
    lemma_fq6_mul_commutative(a.c1, b.c1);
    lemma_fq6_mul_commutative(a.c0, b.c1);
    lemma_fq6_mul_commutative(a.c1, b.c0);
    lemma_ops_canonical();
    lemma_fq6_regroup(fq6_mul(a.c0, b.c1), fq6_mul(a.c1, b.c0), a.c0, a.c0);
}

/// Two products of two factors each, with the inner factors exchanged.
pub proof fn lemma_fq12_mul_interchange(a: Fq12Value, b: Fq12Value, c: Fq12Value, d: Fq12Value)
    requires
        fq12_canonical(a),
        fq12_canonical(b),
        fq12_canonical(c),
        fq12_canonical(d),
    ensures
        fq12_mul(fq12_mul(a, b), fq12_mul(c, d)) == fq12_mul(fq12_mul(a, c), fq12_mul(b, d)),
{
    lemma_fq12_mul_canonical(a, b);
    lemma_fq12_mul_canonical(a, c);
    // (a b)(c d) = ((a b) c) d = (a (b c)) d = (a (c b)) d = ((a c) b) d = (a c)(b d)
    lemma_fq12_mul_associative(fq12_mul(a, b), c, d);
    lemma_fq12_mul_associative(a, b, c);
    lemma_fq12_mul_commutative(b, c);
    lemma_fq12_mul_associative(a, c, b);
    lemma_fq12_mul_associative(fq12_mul(a, c), b, d);
}

/// An element of the sextic extension has at most one inverse.
pub proof fn lemma_fq6_inverse_unique(a: Fq6Value, r: Fq6Value, s: Fq6Value)
    requires
        fq6_canonical(a),
        fq6_is_inverse(a, r),
        fq6_is_inverse(a, s),
    ensures
        r == s,
{
    // r = r 1 = r (a s) = (r a) s = (a r) s = 1 s = s
    lemma_fq6_one_left(r);
    lemma_fq6_mul_commutative(r, fq6_one());
    lemma_fq6_mul_associative(r, a, s);
    lemma_fq6_mul_commutative(r, a);
    lemma_fq6_one_left(s);
}

/// Whatever inverts `a` is the inverse of `a`.
pub proof fn lemma_fq6_inverse_is_fq6_inv(a: Fq6Value, r: Fq6Value)
    requires
        fq6_canonical(a),
        fq6_is_inverse(a, r),
    ensures
        fq6_inv(a) == r,
{
    lemma_fq6_inverse_unique(a, r, fq6_inv(a));
}

} // verus!
